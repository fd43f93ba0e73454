//! What the machines and the provider say to each other.
use vstd::prelude::*;
use crate::clock;
use crate::digest;
use crate::json;
use crate::text;
use crate::clock::Timestamp;
use crate::json::{Json, JsonView};
use crate::text::{cat2, chars_of, copy_option, is_blank, list_has, quoted, same_text};

verus! {

/// The version of the protocol.
pub const PROTOCOL_VERSION: &'static str = "resync.v1";

/// The states that a checkout can be in.
pub fn workspace_states() -> (r: Vec<String>)
    ensures
        text::views(r@) == seq![
            "MATERIALIZING"@,
            "CURRENT"@,
            "REMOTE_AHEAD"@,
            "WAITING_FOR_LEASES"@,
            "RECONCILING"@,
            "CONFLICTED"@,
            "OFFLINE"@,
            "ACCESS_LOST"@,
            "FAILED"@,
        ],
{
    let r = vec![
        "MATERIALIZING".to_owned(),
        "CURRENT".to_owned(),
        "REMOTE_AHEAD".to_owned(),
        "WAITING_FOR_LEASES".to_owned(),
        "RECONCILING".to_owned(),
        "CONFLICTED".to_owned(),
        "OFFLINE".to_owned(),
        "ACCESS_LOST".to_owned(),
        "FAILED".to_owned(),
    ];
    assert(text::views(r@) =~= seq![
        "MATERIALIZING"@,
        "CURRENT"@,
        "REMOTE_AHEAD"@,
        "WAITING_FOR_LEASES"@,
        "RECONCILING"@,
        "CONFLICTED"@,
        "OFFLINE"@,
        "ACCESS_LOST"@,
        "FAILED"@,
    ]);
    r
}

/// The states of the commits of a checkout.
pub fn durability_states() -> (r: Vec<String>)
    ensures
        text::views(r@) == seq![
            "NO_LOCAL_CHANGE"@,
            "DIRTY_UNCHECKPOINTED"@,
            "COMMITTED_UNPUBLISHED"@,
            "PUBLISHING"@,
            "REMOTELY_DURABLE"@,
        ],
{
    let r = vec![
        "NO_LOCAL_CHANGE".to_owned(),
        "DIRTY_UNCHECKPOINTED".to_owned(),
        "COMMITTED_UNPUBLISHED".to_owned(),
        "PUBLISHING".to_owned(),
        "REMOTELY_DURABLE".to_owned(),
    ];
    assert(text::views(r@) =~= seq![
        "NO_LOCAL_CHANGE"@,
        "DIRTY_UNCHECKPOINTED"@,
        "COMMITTED_UNPUBLISHED"@,
        "PUBLISHING"@,
        "REMOTELY_DURABLE"@,
    ]);
    r
}

/// A field that a named lease must have.
#[derive(Debug, Clone, Copy, PartialEq, Eq, Structural)]
pub enum LeaseField {
    LeaseId,
    ProjectId,
    ResourceKey,
    HolderDeviceId,
    HolderId,
}

/// A field that a project of a catalog must have.
#[derive(Debug, Clone, Copy, PartialEq, Eq, Structural)]
pub enum CatalogField {
    ProjectId,
    RemoteUrl,
    DefaultBranch,
}

/// Why a message is not accepted.
#[derive(Debug, Clone, Copy, PartialEq, Eq, Structural)]
pub enum ProtocolError {
    InvalidTtlPolicy,
    LeaseMissing(LeaseField),
    LeaseGeneration,
    LeaseExpiry,
    OtherResource,
    OtherLease,
    LeasePayload,
    OtherProject,
    DuplicateLeases,
    IncompatibleCatalog,
    ProjectsNotArray,
    ProjectNotObject,
    MalformedProject,
    CatalogMissing(CatalogField),
    BranchName,
    HeadOid,
}

/// What a [`ProtocolError`] says.
pub open spec fn protocol_text(e: ProtocolError) -> Seq<char> {
    match e {
        ProtocolError::InvalidTtlPolicy => {
            "provider advertised an invalid named-lease TTL policy"@
        },
        ProtocolError::LeaseMissing(f) => match f {
            LeaseField::LeaseId => "named lease is missing lease_id"@,
            LeaseField::ProjectId => "named lease is missing project_id"@,
            LeaseField::ResourceKey => "named lease is missing resource_key"@,
            LeaseField::HolderDeviceId => "named lease is missing holder_device_id"@,
            LeaseField::HolderId => "named lease is missing holder_id"@,
        },
        ProtocolError::LeaseGeneration => "named lease generation must be greater than zero"@,
        ProtocolError::LeaseExpiry => "named lease expiry must be after acquisition"@,
        ProtocolError::OtherResource => {
            "provider returned a named lease for a different project or resource"@
        },
        ProtocolError::OtherLease => {
            "provider returned a different named lease than requested"@
        },
        ProtocolError::LeasePayload => {
            "named-lease response has an invalid lease payload for its outcome"@
        },
        ProtocolError::OtherProject => {
            "provider returned a named lease for a different project"@
        },
        ProtocolError::DuplicateLeases => "provider returned duplicate live named leases"@,
        ProtocolError::IncompatibleCatalog => "server returned an incompatible catalog"@,
        ProtocolError::ProjectsNotArray => "catalog.projects must be an array"@,
        ProtocolError::ProjectNotObject => "catalog project must be an object"@,
        ProtocolError::MalformedProject => "catalog project has a field of the wrong type"@,
        ProtocolError::CatalogMissing(f) => match f {
            CatalogField::ProjectId => "catalog project is missing project_id"@,
            CatalogField::RemoteUrl => "catalog project is missing remote_url"@,
            CatalogField::DefaultBranch => "catalog project is missing default_branch"@,
        },
        ProtocolError::BranchName => "catalog project has an invalid or duplicate branch name"@,
        ProtocolError::HeadOid => "catalog project has an invalid advertised head OID"@,
    }
}

impl ProtocolError {
    /// The message of the error.
    pub fn message(&self) -> (r: String)
        ensures
            r@ == protocol_text(*self),
    {
        let text = match self {
            ProtocolError::InvalidTtlPolicy => {
                "provider advertised an invalid named-lease TTL policy"
            },
            ProtocolError::LeaseMissing(f) => match f {
                LeaseField::LeaseId => "named lease is missing lease_id",
                LeaseField::ProjectId => "named lease is missing project_id",
                LeaseField::ResourceKey => "named lease is missing resource_key",
                LeaseField::HolderDeviceId => "named lease is missing holder_device_id",
                LeaseField::HolderId => "named lease is missing holder_id",
            },
            ProtocolError::LeaseGeneration => "named lease generation must be greater than zero",
            ProtocolError::LeaseExpiry => "named lease expiry must be after acquisition",
            ProtocolError::OtherResource => {
                "provider returned a named lease for a different project or resource"
            },
            ProtocolError::OtherLease => "provider returned a different named lease than requested",
            ProtocolError::LeasePayload => {
                "named-lease response has an invalid lease payload for its outcome"
            },
            ProtocolError::OtherProject => {
                "provider returned a named lease for a different project"
            },
            ProtocolError::DuplicateLeases => "provider returned duplicate live named leases",
            ProtocolError::IncompatibleCatalog => "server returned an incompatible catalog",
            ProtocolError::ProjectsNotArray => "catalog.projects must be an array",
            ProtocolError::ProjectNotObject => "catalog project must be an object",
            ProtocolError::MalformedProject => "catalog project has a field of the wrong type",
            ProtocolError::CatalogMissing(f) => match f {
                CatalogField::ProjectId => "catalog project is missing project_id",
                CatalogField::RemoteUrl => "catalog project is missing remote_url",
                CatalogField::DefaultBranch => "catalog project is missing default_branch",
            },
            ProtocolError::BranchName => "catalog project has an invalid or duplicate branch name",
            ProtocolError::HeadOid => "catalog project has an invalid advertised head OID",
        };
        text.to_owned()
    }
}

/// How long a provider lets named leases live.
#[derive(Debug, Clone, Copy, PartialEq, Eq, Structural)]
pub struct NamedLeasePolicy {
    pub default_ttl_seconds: u64,
    pub min_ttl_seconds: u64,
    pub max_ttl_seconds: u64,
}

/// A policy whose bounds are in order, with at least one second.
pub open spec fn valid_policy(p: NamedLeasePolicy) -> bool {
    0 < p.min_ttl_seconds <= p.default_ttl_seconds <= p.max_ttl_seconds
}

impl NamedLeasePolicy {
    /// Refuses a policy whose bounds are out of order.
    pub fn validate(&self) -> (r: Result<(), ProtocolError>)
        ensures
            r == if valid_policy(*self) {
                Ok(())
            } else {
                Err(ProtocolError::InvalidTtlPolicy)
            },
    {
        if self.min_ttl_seconds == 0 || self.min_ttl_seconds > self.default_ttl_seconds
            || self.default_ttl_seconds > self.max_ttl_seconds {
            return Err(ProtocolError::InvalidTtlPolicy);
        }
        Ok(())
    }
}

/// What a provider says of a request about a named lease.
#[derive(Debug, Clone, Copy, PartialEq, Eq, Structural)]
pub enum NamedLeaseOutcome {
    Acquired,
    Held,
    Renewed,
    Released,
    LeaseExpired,
    NotHolder,
    NotFound,
    InvalidResourceKey,
    InvalidTtl,
    RequestIdReused,
}

/// How an outcome is written.
pub open spec fn outcome_text(o: NamedLeaseOutcome) -> Seq<char> {
    match o {
        NamedLeaseOutcome::Acquired => "ACQUIRED"@,
        NamedLeaseOutcome::Held => "HELD"@,
        NamedLeaseOutcome::Renewed => "RENEWED"@,
        NamedLeaseOutcome::Released => "RELEASED"@,
        NamedLeaseOutcome::LeaseExpired => "LEASE_EXPIRED"@,
        NamedLeaseOutcome::NotHolder => "NOT_HOLDER"@,
        NamedLeaseOutcome::NotFound => "NOT_FOUND"@,
        NamedLeaseOutcome::InvalidResourceKey => "INVALID_RESOURCE_KEY"@,
        NamedLeaseOutcome::InvalidTtl => "INVALID_TTL"@,
        NamedLeaseOutcome::RequestIdReused => "REQUEST_ID_REUSED"@,
    }
}

/// An outcome that comes with the lease it is about.
pub open spec fn has_lease(o: NamedLeaseOutcome) -> bool {
    o == NamedLeaseOutcome::Acquired || o == NamedLeaseOutcome::Held || o
        == NamedLeaseOutcome::Renewed || o == NamedLeaseOutcome::Released
}

/// A text that is no outcome.
#[derive(Debug, Clone, PartialEq, Eq)]
pub struct UnknownOutcome {
    pub value: String,
}

impl UnknownOutcome {
    /// The message of the error.
    pub fn message(&self) -> (r: String)
        ensures
            r@ == "unknown named-lease outcome "@ + text::quoted_text(self.value@),
    {
        let value = quoted(self.value.as_str());
        cat2("unknown named-lease outcome ", value.as_str())
    }
}

impl NamedLeaseOutcome {
    /// How the outcome is written.
    pub fn as_str(self) -> (r: &'static str)
        ensures
            r@ == outcome_text(self),
    {
        match self {
            NamedLeaseOutcome::Acquired => "ACQUIRED",
            NamedLeaseOutcome::Held => "HELD",
            NamedLeaseOutcome::Renewed => "RENEWED",
            NamedLeaseOutcome::Released => "RELEASED",
            NamedLeaseOutcome::LeaseExpired => "LEASE_EXPIRED",
            NamedLeaseOutcome::NotHolder => "NOT_HOLDER",
            NamedLeaseOutcome::NotFound => "NOT_FOUND",
            NamedLeaseOutcome::InvalidResourceKey => "INVALID_RESOURCE_KEY",
            NamedLeaseOutcome::InvalidTtl => "INVALID_TTL",
            NamedLeaseOutcome::RequestIdReused => "REQUEST_ID_REUSED",
        }
    }

    /// Whether the outcome comes with the lease it is about.
    pub fn carries_lease(self) -> (r: bool)
        ensures
            r == has_lease(self),
    {
        match self {
            NamedLeaseOutcome::Acquired
            | NamedLeaseOutcome::Held
            | NamedLeaseOutcome::Renewed
            | NamedLeaseOutcome::Released => true,
            _ => false,
        }
    }

    /// The outcome that a text stands for.
    pub fn parse(value: &str) -> (r: Result<NamedLeaseOutcome, UnknownOutcome>)
        ensures
            match r {
                Ok(o) => outcome_text(o) == value@,
                Err(e) => e.value@ == value@ && forall|o: NamedLeaseOutcome|
                    #[trigger] outcome_text(o) != value@,
            },
    {
        if same_text(value, "ACQUIRED") {
            return Ok(NamedLeaseOutcome::Acquired);
        }
        if same_text(value, "HELD") {
            return Ok(NamedLeaseOutcome::Held);
        }
        if same_text(value, "RENEWED") {
            return Ok(NamedLeaseOutcome::Renewed);
        }
        if same_text(value, "RELEASED") {
            return Ok(NamedLeaseOutcome::Released);
        }
        if same_text(value, "LEASE_EXPIRED") {
            return Ok(NamedLeaseOutcome::LeaseExpired);
        }
        if same_text(value, "NOT_HOLDER") {
            return Ok(NamedLeaseOutcome::NotHolder);
        }
        if same_text(value, "NOT_FOUND") {
            return Ok(NamedLeaseOutcome::NotFound);
        }
        if same_text(value, "INVALID_RESOURCE_KEY") {
            return Ok(NamedLeaseOutcome::InvalidResourceKey);
        }
        if same_text(value, "INVALID_TTL") {
            return Ok(NamedLeaseOutcome::InvalidTtl);
        }
        if same_text(value, "REQUEST_ID_REUSED") {
            return Ok(NamedLeaseOutcome::RequestIdReused);
        }
        Err(UnknownOutcome { value: value.to_owned() })
    }
}

impl std::str::FromStr for NamedLeaseOutcome {
    type Err = UnknownOutcome;

    fn from_str(value: &str) -> (r: Result<NamedLeaseOutcome, UnknownOutcome>)
        ensures
            match r {
                Ok(o) => outcome_text(o) == value@,
                Err(e) => e.value@ == value@ && forall|o: NamedLeaseOutcome|
                    #[trigger] outcome_text(o) != value@,
            },
    {
        NamedLeaseOutcome::parse(value)
    }
}

/// Different outcomes are written differently, so that reading what was written gives the outcome
/// back.
pub proof fn law_outcomes_are_distinct(a: NamedLeaseOutcome, b: NamedLeaseOutcome)
    requires
        outcome_text(a) == outcome_text(b),
    ensures
        a == b,
{
    reveal_strlit("ACQUIRED");
    reveal_strlit("HELD");
    reveal_strlit("RENEWED");
    reveal_strlit("RELEASED");
    reveal_strlit("LEASE_EXPIRED");
    reveal_strlit("NOT_HOLDER");
    reveal_strlit("NOT_FOUND");
    reveal_strlit("INVALID_RESOURCE_KEY");
    reveal_strlit("INVALID_TTL");
    reveal_strlit("REQUEST_ID_REUSED");
    assert("ACQUIRED"@.len() == 8);
    assert("HELD"@.len() == 4);
    assert("RENEWED"@.len() == 7);
    assert("RELEASED"@.len() == 8);
    assert("LEASE_EXPIRED"@.len() == 13);
    assert("NOT_HOLDER"@.len() == 10);
    assert("NOT_FOUND"@.len() == 9);
    assert("INVALID_RESOURCE_KEY"@.len() == 20);
    assert("INVALID_TTL"@.len() == 11);
    assert("REQUEST_ID_REUSED"@.len() == 17);
    assert("ACQUIRED"@[0] == 'A');
    assert("RELEASED"@[0] == 'R');
}

/// A lease on a name, held by one device.
#[derive(Debug, Clone, PartialEq, Eq)]
pub struct NamedLease {
    pub lease_id: String,
    pub project_id: String,
    pub resource_key: String,
    pub holder_device_id: String,
    pub holder_device_name: Option<String>,
    pub holder_id: String,
    pub generation: u64,
    pub acquired_at: Timestamp,
    pub expires_at: Timestamp,
}

/// What a [`NamedLease`] holds.
pub struct NamedLeaseView {
    pub lease_id: Seq<char>,
    pub project_id: Seq<char>,
    pub resource_key: Seq<char>,
    pub holder_device_id: Seq<char>,
    pub holder_device_name: Option<Seq<char>>,
    pub holder_id: Seq<char>,
    pub generation: u64,
    pub acquired_at: Timestamp,
    pub expires_at: Timestamp,
}

impl View for NamedLease {
    type V = NamedLeaseView;

    open spec fn view(&self) -> NamedLeaseView {
        NamedLeaseView {
            lease_id: self.lease_id@,
            project_id: self.project_id@,
            resource_key: self.resource_key@,
            holder_device_id: self.holder_device_id@,
            holder_device_name: text::opt_view(self.holder_device_name),
            holder_id: self.holder_id@,
            generation: self.generation,
            acquired_at: self.acquired_at,
            expires_at: self.expires_at,
        }
    }
}

impl NamedLease {
    /// A second value with the same contents.
    pub fn copy(&self) -> (r: Self)
        ensures
            r@ == self@,
    {
        NamedLease {
            lease_id: self.lease_id.clone(),
            project_id: self.project_id.clone(),
            resource_key: self.resource_key.clone(),
            holder_device_id: self.holder_device_id.clone(),
            holder_device_name: copy_option(&self.holder_device_name),
            holder_id: self.holder_id.clone(),
            generation: self.generation,
            acquired_at: self.acquired_at,
            expires_at: self.expires_at,
        }
    }
}

/// What is wrong with a lease, if anything is.
pub open spec fn lease_error(l: NamedLeaseView) -> Option<ProtocolError> {
    if l.lease_id.len() == 0 {
        Some(ProtocolError::LeaseMissing(LeaseField::LeaseId))
    } else if l.project_id.len() == 0 {
        Some(ProtocolError::LeaseMissing(LeaseField::ProjectId))
    } else if l.resource_key.len() == 0 {
        Some(ProtocolError::LeaseMissing(LeaseField::ResourceKey))
    } else if l.holder_device_id.len() == 0 {
        Some(ProtocolError::LeaseMissing(LeaseField::HolderDeviceId))
    } else if l.holder_id.len() == 0 {
        Some(ProtocolError::LeaseMissing(LeaseField::HolderId))
    } else if l.generation == 0 {
        Some(ProtocolError::LeaseGeneration)
    } else if clock::not_after(l.expires_at, l.acquired_at) {
        Some(ProtocolError::LeaseExpiry)
    } else {
        None
    }
}

/// What is wrong with a lease that was asked for by its resource.
pub open spec fn resource_lease_error(
    l: NamedLeaseView,
    project_id: Seq<char>,
    resource_key: Seq<char>,
) -> Option<ProtocolError> {
    if lease_error(l) is Some {
        lease_error(l)
    } else if l.project_id != project_id || l.resource_key != resource_key {
        Some(ProtocolError::OtherResource)
    } else {
        None
    }
}

/// What is wrong with a lease that was asked for by its identifier.
pub open spec fn id_lease_error(
    l: NamedLeaseView,
    project_id: Seq<char>,
    lease_id: Seq<char>,
) -> Option<ProtocolError> {
    if lease_error(l) is Some {
        lease_error(l)
    } else if l.project_id != project_id || l.lease_id != lease_id {
        Some(ProtocolError::OtherLease)
    } else {
        None
    }
}

/// The result that goes with what is wrong, if anything is.
pub open spec fn accepted(e: Option<ProtocolError>) -> Result<(), ProtocolError> {
    match e {
        Some(e) => Err(e),
        None => Ok(()),
    }
}

impl NamedLease {
    /// Refuses a lease that lacks a field, has no generation, or never lives.
    pub fn validate(&self) -> (r: Result<(), ProtocolError>)
        ensures
            r == accepted(lease_error(self@)),
    {
        if is_blank(self.lease_id.as_str()) {
            return Err(ProtocolError::LeaseMissing(LeaseField::LeaseId));
        }
        if is_blank(self.project_id.as_str()) {
            return Err(ProtocolError::LeaseMissing(LeaseField::ProjectId));
        }
        if is_blank(self.resource_key.as_str()) {
            return Err(ProtocolError::LeaseMissing(LeaseField::ResourceKey));
        }
        if is_blank(self.holder_device_id.as_str()) {
            return Err(ProtocolError::LeaseMissing(LeaseField::HolderDeviceId));
        }
        if is_blank(self.holder_id.as_str()) {
            return Err(ProtocolError::LeaseMissing(LeaseField::HolderId));
        }
        if self.generation == 0 {
            return Err(ProtocolError::LeaseGeneration);
        }
        if self.expires_at.not_after(&self.acquired_at) {
            return Err(ProtocolError::LeaseExpiry);
        }
        Ok(())
    }

    /// Refuses a lease that is not valid, or is about another project or resource.
    pub fn validate_for_resource(&self, project_id: &str, resource_key: &str) -> (r: Result<
        (),
        ProtocolError,
    >)
        ensures
            r == accepted(resource_lease_error(self@, project_id@, resource_key@)),
    {
        self.validate()?;
        if !same_text(self.project_id.as_str(), project_id) || !same_text(
            self.resource_key.as_str(),
            resource_key,
        ) {
            return Err(ProtocolError::OtherResource);
        }
        Ok(())
    }

    /// Refuses a lease that is not valid, or is another one.
    pub fn validate_for_lease(&self, project_id: &str, lease_id: &str) -> (r: Result<
        (),
        ProtocolError,
    >)
        ensures
            r == accepted(id_lease_error(self@, project_id@, lease_id@)),
    {
        self.validate()?;
        if !same_text(self.project_id.as_str(), project_id) || !same_text(
            self.lease_id.as_str(),
            lease_id,
        ) {
            return Err(ProtocolError::OtherLease);
        }
        Ok(())
    }
}

/// The reply to a request that changes a lease.
#[derive(Debug, Clone, PartialEq, Eq)]
pub struct NamedLeaseMutationResponse {
    pub outcome: NamedLeaseOutcome,
    pub lease: Option<NamedLease>,
}

/// What a [`NamedLeaseMutationResponse`] holds.
pub struct NamedLeaseMutationResponseView {
    pub outcome: NamedLeaseOutcome,
    pub lease: Option<NamedLeaseView>,
}

impl View for NamedLeaseMutationResponse {
    type V = NamedLeaseMutationResponseView;

    open spec fn view(&self) -> NamedLeaseMutationResponseView {
        NamedLeaseMutationResponseView {
            outcome: self.outcome,
            lease: match self.lease {
                Some(v) => Some(v@),
                None => None,
            },
        }
    }
}

impl NamedLeaseMutationResponse {
    /// A second value with the same contents.
    pub fn copy(&self) -> (r: Self)
        ensures
            r@ == self@,
    {
        NamedLeaseMutationResponse {
            outcome: self.outcome,
            lease: match &self.lease {
                Some(v) => Some(v.copy()),
                None => None,
            },
        }
    }
}

/// What is wrong with a reply, if anything is.
pub open spec fn reply_error(r: NamedLeaseMutationResponseView) -> Option<ProtocolError> {
    if has_lease(r.outcome) != (r.lease is Some) {
        Some(ProtocolError::LeasePayload)
    } else if r.lease is Some {
        lease_error(r.lease->0)
    } else {
        None
    }
}

/// What is wrong with the reply to a request about a resource.
pub open spec fn resource_reply_error(
    r: NamedLeaseMutationResponseView,
    project_id: Seq<char>,
    resource_key: Seq<char>,
) -> Option<ProtocolError> {
    if reply_error(r) is Some {
        reply_error(r)
    } else if r.lease is Some {
        resource_lease_error(r.lease->0, project_id, resource_key)
    } else {
        None
    }
}

/// What is wrong with the reply to a request about a lease.
pub open spec fn id_reply_error(
    r: NamedLeaseMutationResponseView,
    project_id: Seq<char>,
    lease_id: Seq<char>,
) -> Option<ProtocolError> {
    if reply_error(r) is Some {
        reply_error(r)
    } else if r.lease is Some {
        id_lease_error(r.lease->0, project_id, lease_id)
    } else {
        None
    }
}

impl NamedLeaseMutationResponse {
    /// Refuses a reply that lacks its lease, has one that does not belong there, or has one that
    /// is not valid.
    pub fn validate(&self) -> (r: Result<(), ProtocolError>)
        ensures
            r == accepted(reply_error(self@)),
    {
        if self.outcome.carries_lease() != self.lease.is_some() {
            return Err(ProtocolError::LeasePayload);
        }
        match &self.lease {
            Some(lease) => lease.validate(),
            None => Ok(()),
        }
    }

    /// Refuses a reply that is not valid, or whose lease is about another project or resource.
    pub fn validate_for_resource(&self, project_id: &str, resource_key: &str) -> (r: Result<
        (),
        ProtocolError,
    >)
        ensures
            r == accepted(resource_reply_error(self@, project_id@, resource_key@)),
    {
        self.validate()?;
        match &self.lease {
            Some(lease) => lease.validate_for_resource(project_id, resource_key),
            None => Ok(()),
        }
    }

    /// Refuses a reply that is not valid, or whose lease is another one.
    pub fn validate_for_lease(&self, project_id: &str, lease_id: &str) -> (r: Result<
        (),
        ProtocolError,
    >)
        ensures
            r == accepted(id_reply_error(self@, project_id@, lease_id@)),
    {
        self.validate()?;
        match &self.lease {
            Some(lease) => lease.validate_for_lease(project_id, lease_id),
            None => Ok(()),
        }
    }
}

/// The leases of a project.
#[derive(Debug, Clone, PartialEq, Eq)]
pub struct NamedLeaseListResponse {
    pub leases: Vec<NamedLease>,
}

/// The contents of a list of leases.
pub open spec fn lease_views(leases: Seq<NamedLease>) -> Seq<NamedLeaseView> {
    leases.map_values(|l: NamedLease| l@)
}

/// The identifiers of leases.
pub open spec fn lease_ids(leases: Seq<NamedLeaseView>) -> Seq<Seq<char>> {
    leases.map_values(|l: NamedLeaseView| l.lease_id)
}

/// The resources of leases.
pub open spec fn lease_keys(leases: Seq<NamedLeaseView>) -> Seq<Seq<char>> {
    leases.map_values(|l: NamedLeaseView| l.resource_key)
}

/// What is wrong with the lease at position `i` of a list.
pub open spec fn listed_lease_error(
    leases: Seq<NamedLeaseView>,
    project_id: Seq<char>,
    i: int,
) -> Option<ProtocolError> {
    let l = leases[i];
    if lease_error(l) is Some {
        lease_error(l)
    } else if l.project_id != project_id {
        Some(ProtocolError::OtherProject)
    } else if lease_ids(leases.take(i)).contains(l.lease_id) || lease_keys(
        leases.take(i),
    ).contains(l.resource_key) {
        Some(ProtocolError::DuplicateLeases)
    } else {
        None
    }
}

/// The first thing that is wrong with a list of leases from position `i` on.
pub open spec fn lease_list_error(
    leases: Seq<NamedLeaseView>,
    project_id: Seq<char>,
    i: int,
) -> Option<ProtocolError>
    decreases leases.len() - i,
{
    if i < 0 || i >= leases.len() {
        None
    } else if listed_lease_error(leases, project_id, i) is Some {
        listed_lease_error(leases, project_id, i)
    } else {
        lease_list_error(leases, project_id, i + 1)
    }
}

impl NamedLeaseListResponse {
    /// Refuses a list with a lease that is not valid, belongs to another project, or occurs twice.
    pub fn validate_for_project(&self, project_id: &str) -> (r: Result<(), ProtocolError>)
        ensures
            r == accepted(lease_list_error(lease_views(self.leases@), project_id@, 0)),
    {
        let ghost all = lease_views(self.leases@);
        let mut ids: Vec<String> = Vec::new();
        let mut keys: Vec<String> = Vec::new();
        let mut i: usize = 0;
        assert(text::views(ids@) =~= lease_ids(all.take(0)));
        assert(text::views(keys@) =~= lease_keys(all.take(0)));
        while i < self.leases.len()
            invariant
                0 <= i <= self.leases.len(),
                all == lease_views(self.leases@),
                text::views(ids@) == lease_ids(all.take(i as int)),
                text::views(keys@) == lease_keys(all.take(i as int)),
                lease_list_error(all, project_id@, 0) == lease_list_error(
                    all,
                    project_id@,
                    i as int,
                ),
            decreases self.leases.len() - i,
        {
            let lease = &self.leases[i];
            assert(all[i as int] == lease@);
            match lease.validate() {
                Ok(()) => {},
                Err(e) => {
                    return Err(e);
                },
            }
            if !same_text(lease.project_id.as_str(), project_id) {
                return Err(ProtocolError::OtherProject);
            }
            if list_has(&ids, lease.lease_id.as_str()) || list_has(
                &keys,
                lease.resource_key.as_str(),
            ) {
                return Err(ProtocolError::DuplicateLeases);
            }
            let ghost old_ids = ids@;
            let ghost old_keys = keys@;
            ids.push(lease.lease_id.clone());
            keys.push(lease.resource_key.clone());
            assert(text::views(ids@) =~= text::views(old_ids).push(lease.lease_id@));
            assert(text::views(keys@) =~= text::views(old_keys).push(lease.resource_key@));
            assert(all.take(i + 1) =~= all.take(i as int).push(all[i as int]));
            assert(lease_ids(all.take(i + 1)) =~= lease_ids(all.take(i as int)).push(
                lease.lease_id@,
            ));
            assert(lease_keys(all.take(i + 1)) =~= lease_keys(all.take(i as int)).push(
                lease.resource_key@,
            ));
            i += 1;
        }
        Ok(())
    }
}

/// In a list of leases that is accepted every lease is valid and of the project, and no two of
/// them share an identifier or a resource.
pub proof fn law_accepted_list(leases: Seq<NamedLeaseView>, project_id: Seq<char>, i: int, j: int)
    requires
        lease_list_error(leases, project_id, 0) is None,
        0 <= i < j < leases.len(),
    ensures
        lease_error(leases[i]) is None,
        lease_error(leases[j]) is None,
        leases[i].project_id == project_id,
        leases[j].project_id == project_id,
        leases[i].lease_id != leases[j].lease_id,
        leases[i].resource_key != leases[j].resource_key,
{
    lemma_no_listed_error(leases, project_id, 0, i);
    lemma_no_listed_error(leases, project_id, 0, j);
    assert(lease_ids(leases.take(j))[i] == leases[i].lease_id);
    assert(lease_keys(leases.take(j))[i] == leases[i].resource_key);
}

proof fn lemma_no_listed_error(
    leases: Seq<NamedLeaseView>,
    project_id: Seq<char>,
    from: int,
    i: int,
)
    requires
        0 <= from <= i < leases.len(),
        lease_list_error(leases, project_id, from) is None,
    ensures
        listed_lease_error(leases, project_id, i) is None,
    decreases i - from,
{
    if from < i {
        lemma_no_listed_error(leases, project_id, from + 1, i);
    }
}

/// A branch of a hosted project and its commit.
#[derive(Debug, Clone, PartialEq, Eq)]
pub struct AdvertisedHead {
    pub name: String,
    pub oid: String,
}

/// What a [`AdvertisedHead`] holds.
pub struct AdvertisedHeadView {
    pub name: Seq<char>,
    pub oid: Seq<char>,
}

impl View for AdvertisedHead {
    type V = AdvertisedHeadView;

    open spec fn view(&self) -> AdvertisedHeadView {
        AdvertisedHeadView {
            name: self.name@,
            oid: self.oid@,
        }
    }
}

impl AdvertisedHead {
    /// A second value with the same contents.
    pub fn copy(&self) -> (r: Self)
        ensures
            r@ == self@,
    {
        AdvertisedHead {
            name: self.name.clone(),
            oid: self.oid.clone(),
        }
    }
}

/// A hosted project.
#[derive(Debug, Clone, PartialEq, Eq)]
pub struct CatalogProject {
    pub project_id: String,
    pub name: String,
    pub remote_url: String,
    pub default_branch: String,
    pub advertised_heads: Vec<AdvertisedHead>,
    pub project_generation: u64,
    /// The fields that have no meaning here.
    pub extra: Vec<(String, Json)>,
}

/// What a [`CatalogProject`] holds.
pub struct CatalogProjectView {
    pub project_id: Seq<char>,
    pub name: Seq<char>,
    pub remote_url: Seq<char>,
    pub default_branch: Seq<char>,
    pub advertised_heads: Seq<AdvertisedHeadView>,
    pub project_generation: u64,
    pub extra: Seq<(Seq<char>, JsonView)>,
}

/// The contents of a list of heads.
pub open spec fn head_views(heads: Seq<AdvertisedHead>) -> Seq<AdvertisedHeadView> {
    heads.map_values(|h: AdvertisedHead| h@)
}

impl View for CatalogProject {
    type V = CatalogProjectView;

    open spec fn view(&self) -> CatalogProjectView {
        CatalogProjectView {
            project_id: self.project_id@,
            name: self.name@,
            remote_url: self.remote_url@,
            default_branch: self.default_branch@,
            advertised_heads: head_views(self.advertised_heads@),
            project_generation: self.project_generation,
            extra: json::field_views(self.extra@),
        }
    }
}

/// The hosted projects that a device may use.
#[derive(Debug, Clone, PartialEq, Eq)]
pub struct Catalog {
    pub protocol: String,
    pub catalog_generation: u64,
    pub projects: Vec<CatalogProject>,
}

/// The contents of a list of hosted projects.
pub open spec fn catalog_views(projects: Seq<CatalogProject>) -> Seq<CatalogProjectView> {
    projects.map_values(|p: CatalogProject| p@)
}

/// An object identifier: 40 to 64 lower-case hexadecimal digits.
pub open spec fn valid_oid(s: Seq<char>) -> bool {
    40 <= s.len() <= 64 && digest::all_hex(s)
}

/// The names of heads.
pub open spec fn head_names(heads: Seq<AdvertisedHeadView>) -> Seq<Seq<char>> {
    heads.map_values(|h: AdvertisedHeadView| h.name)
}

/// The first thing that is wrong with the heads of a project from position `i` on.
pub open spec fn heads_error(heads: Seq<AdvertisedHeadView>, i: int) -> Option<ProtocolError>
    decreases heads.len() - i,
{
    if i < 0 || i >= heads.len() {
        None
    } else if heads[i].name.len() == 0 || head_names(heads.take(i)).contains(heads[i].name) {
        Some(ProtocolError::BranchName)
    } else if !valid_oid(heads[i].oid) {
        Some(ProtocolError::HeadOid)
    } else {
        heads_error(heads, i + 1)
    }
}

/// The first thing that is wrong with a hosted project.
pub open spec fn project_error(p: CatalogProjectView) -> Option<ProtocolError> {
    if p.project_id.len() == 0 {
        Some(ProtocolError::CatalogMissing(CatalogField::ProjectId))
    } else if p.remote_url.len() == 0 {
        Some(ProtocolError::CatalogMissing(CatalogField::RemoteUrl))
    } else if p.default_branch.len() == 0 {
        Some(ProtocolError::CatalogMissing(CatalogField::DefaultBranch))
    } else {
        heads_error(p.advertised_heads, 0)
    }
}

/// The first thing that is wrong with hosted projects from position `i` on.
pub open spec fn catalog_error(projects: Seq<CatalogProjectView>, i: int) -> Option<ProtocolError>
    decreases projects.len() - i,
{
    if i < 0 || i >= projects.len() {
        None
    } else if project_error(projects[i]) is Some {
        project_error(projects[i])
    } else {
        catalog_error(projects, i + 1)
    }
}

/// Whether a text is an object identifier.
pub fn is_oid(s: &str) -> (r: bool)
    ensures
        r == valid_oid(s@),
{
    let c = chars_of(s);
    if c.len() < 40 || c.len() > 64 {
        return false;
    }
    let mut i: usize = 0;
    while i < c.len()
        invariant
            0 <= i <= c.len(),
            c@ == s@,
            forall|j: int| 0 <= j < i ==> digest::is_hex(#[trigger] s@[j]),
        decreases c.len() - i,
    {
        if !(('0' <= c[i] && c[i] <= '9') || ('a' <= c[i] && c[i] <= 'f')) {
            assert(!digest::is_hex(s@[i as int]));
            return false;
        }
        i += 1;
    }
    true
}

impl CatalogProject {
    /// Refuses a project that lacks a field, or has a head that is not valid or occurs twice.
    pub fn validate(&self) -> (r: Result<(), ProtocolError>)
        ensures
            r == accepted(project_error(self@)),
    {
        if is_blank(self.project_id.as_str()) {
            return Err(ProtocolError::CatalogMissing(CatalogField::ProjectId));
        }
        if is_blank(self.remote_url.as_str()) {
            return Err(ProtocolError::CatalogMissing(CatalogField::RemoteUrl));
        }
        if is_blank(self.default_branch.as_str()) {
            return Err(ProtocolError::CatalogMissing(CatalogField::DefaultBranch));
        }
        let ghost all = head_views(self.advertised_heads@);
        let mut names: Vec<String> = Vec::new();
        let mut i: usize = 0;
        assert(text::views(names@) =~= head_names(all.take(0)));
        while i < self.advertised_heads.len()
            invariant
                0 <= i <= self.advertised_heads.len(),
                all == head_views(self.advertised_heads@),
                text::views(names@) == head_names(all.take(i as int)),
                heads_error(all, 0) == heads_error(all, i as int),
                project_error(self@) == heads_error(all, 0),
            decreases self.advertised_heads.len() - i,
        {
            let head = &self.advertised_heads[i];
            assert(all[i as int] == head@);
            if is_blank(head.name.as_str()) || list_has(&names, head.name.as_str()) {
                return Err(ProtocolError::BranchName);
            }
            if !is_oid(head.oid.as_str()) {
                return Err(ProtocolError::HeadOid);
            }
            let ghost before = names@;
            names.push(head.name.clone());
            assert(text::views(names@) =~= text::views(before).push(head.name@));
            assert(all.take(i + 1) =~= all.take(i as int).push(all[i as int]));
            assert(head_names(all.take(i + 1)) =~= head_names(all.take(i as int)).push(head.name@));
            i += 1;
        }
        Ok(())
    }
}

impl Catalog {
    /// Refuses a catalog with a project that is not valid.
    pub fn validate(&self) -> (r: Result<(), ProtocolError>)
        ensures
            r == accepted(catalog_error(catalog_views(self.projects@), 0)),
    {
        let ghost all = catalog_views(self.projects@);
        let mut i: usize = 0;
        while i < self.projects.len()
            invariant
                0 <= i <= self.projects.len(),
                all == catalog_views(self.projects@),
                catalog_error(all, 0) == catalog_error(all, i as int),
            decreases self.projects.len() - i,
        {
            assert(all[i as int] == self.projects@[i as int]@);
            match self.projects[i].validate() {
                Ok(()) => {},
                Err(e) => {
                    return Err(e);
                },
            }
            i += 1;
        }
        Ok(())
    }
}

/// In a catalog that is accepted no project names a branch twice.
pub proof fn law_accepted_heads(heads: Seq<AdvertisedHeadView>, i: int, j: int)
    requires
        heads_error(heads, 0) is None,
        0 <= i < j < heads.len(),
    ensures
        heads[i].name != heads[j].name,
        valid_oid(heads[i].oid),
        valid_oid(heads[j].oid),
{
    lemma_no_head_error(heads, 0, i);
    lemma_no_head_error(heads, 0, j);
    assert(head_names(heads.take(j))[i] == heads[i].name);
}

proof fn lemma_no_head_error(heads: Seq<AdvertisedHeadView>, from: int, i: int)
    requires
        0 <= from <= i < heads.len(),
        heads_error(heads, from) is None,
    ensures
        !head_names(heads.take(i)).contains(heads[i].name),
        heads[i].name.len() > 0,
        valid_oid(heads[i].oid),
    decreases i - from,
{
    if from < i {
        lemma_no_head_error(heads, from + 1, i);
    }
}

/// An optional field that must be a text where it is there.
pub open spec fn optional_text(value: Json, key: Seq<char>) -> Result<Seq<char>, ProtocolError> {
    match json::field(value, key) {
        Some(inner) => match json::text_value(inner) {
            Some(text) => Ok(text),
            None => Err(ProtocolError::MalformedProject),
        },
        None => Ok(Seq::empty()),
    }
}

/// A field that must be there and be a text.
pub open spec fn required_text(value: Json, key: Seq<char>) -> Result<Seq<char>, ProtocolError> {
    match json::text_field(value, key) {
        Some(text) => Ok(text),
        None => Err(ProtocolError::MalformedProject),
    }
}

/// The default branch of a project: under its present name, else under its earlier one.
pub open spec fn branch_field(value: Json) -> Result<Seq<char>, ProtocolError> {
    let present = json::text_field(value, "default_branch"@);
    if (present is None || present->0.len() == 0) && json::field(value, "sync_branch"@) is Some {
        required_text(value, "sync_branch"@)
    } else {
        optional_text(value, "default_branch"@)
    }
}

/// The heads that a list of records describes, up to position `n`.
pub open spec fn parsed_heads(list: Seq<Json>, n: int) -> Result<
    Seq<AdvertisedHeadView>,
    ProtocolError,
>
    decreases n,
{
    if n <= 0 {
        Ok(Seq::empty())
    } else {
        match (
            parsed_heads(list, n - 1),
            json::record_text(list[n - 1], 2, 0, "name"@),
            json::record_text(list[n - 1], 2, 1, "oid"@),
        ) {
            (Ok(before), Some(name), Some(oid)) => Ok(before.push(AdvertisedHeadView { name, oid })),
            _ => Err(ProtocolError::MalformedProject),
        }
    }
}

/// The heads of a project: a list of them, else the one head that earlier versions gave.
pub open spec fn heads_field(value: Json, branch: Seq<char>) -> Result<
    Seq<AdvertisedHeadView>,
    ProtocolError,
> {
    match json::field(value, "advertised_heads"@) {
        Some(Json::List(list)) => parsed_heads(list@, list@.len() as int),
        Some(_) => Err(ProtocolError::MalformedProject),
        None => match json::text_field(value, "advertised_head_oid"@) {
            Some(oid) => Ok(seq![AdvertisedHeadView { name: branch, oid }]),
            None => Ok(Seq::empty()),
        },
    }
}

/// The generation of a project, or zero.
pub open spec fn generation_field(value: Json) -> Result<u64, ProtocolError> {
    match json::field(value, "project_generation"@) {
        Some(inner) => match json::number_value(inner) {
            Some(n) => Ok(n as u64),
            None => Err(ProtocolError::MalformedProject),
        },
        None => Ok(0),
    }
}

/// The project that an object describes.
pub open spec fn parsed_project(value: Json) -> Result<CatalogProjectView, ProtocolError> {
    if !(value is Object) {
        Err(ProtocolError::ProjectNotObject)
    } else {
        match branch_field(value) {
            Err(e) => Err(e),
            Ok(default_branch) => match (
                required_text(value, "project_id"@),
                optional_text(value, "name"@),
                required_text(value, "remote_url"@),
                heads_field(value, default_branch),
                generation_field(value),
            ) {
                (
                    Ok(project_id),
                    Ok(name),
                    Ok(remote_url),
                    Ok(advertised_heads),
                    Ok(project_generation),
                ) => Ok(
                    CatalogProjectView {
                        project_id,
                        name,
                        remote_url,
                        default_branch,
                        advertised_heads,
                        project_generation,
                        extra: extra_fields(value),
                    },
                ),
                _ => Err(ProtocolError::MalformedProject),
            },
        }
    }
}

/// The fields of a hosted project that have a meaning, under their present or earlier names.
pub open spec fn is_project_field(key: Seq<char>) -> bool {
    key == "project_id"@ || key == "name"@ || key == "remote_url"@ || key == "default_branch"@ || key
        == "advertised_heads"@ || key == "project_generation"@ || key == "sync_branch"@ || key
        == "advertised_head_oid"@
}

/// The other fields of an object, in order.
pub open spec fn extra_fields(value: Json) -> Seq<(Seq<char>, JsonView)> {
    match value {
        Json::Object(fields) => json::field_views(fields@).filter(
            |f: (Seq<char>, JsonView)| !is_project_field(f.0),
        ),
        _ => Seq::empty(),
    }
}

/// The projects that a list of objects describes, up to position `n`.
pub open spec fn parsed_projects(list: Seq<Json>, n: int) -> Result<
    Seq<CatalogProjectView>,
    ProtocolError,
>
    decreases n,
{
    if n <= 0 {
        Ok(Seq::empty())
    } else {
        match parsed_projects(list, n - 1) {
            Err(e) => Err(e),
            Ok(before) => match parsed_project(list[n - 1]) {
                Err(e) => Err(e),
                Ok(p) => Ok(before.push(p)),
            },
        }
    }
}

/// A list of objects.
pub open spec fn are_objects(list: Seq<Json>) -> bool {
    forall|i: int| 0 <= i < list.len() ==> #[trigger] list[i] is Object
}

/// The generation and the projects of the catalog that a document describes.
pub open spec fn parsed_catalog(value: Json) -> Result<
    (u64, Seq<CatalogProjectView>),
    ProtocolError,
> {
    if json::text_field(value, "protocol"@) != Some(PROTOCOL_VERSION@) || json::number_field(
        value,
        "catalog_generation"@,
    ) is None {
        Err(ProtocolError::IncompatibleCatalog)
    } else {
        match json::field(value, "projects"@) {
            Some(Json::List(list)) => if !are_objects(list@) {
                Err(ProtocolError::ProjectNotObject)
            } else {
                match parsed_projects(list@, list@.len() as int) {
                    Err(e) => Err(e),
                    Ok(projects) => match catalog_error(projects, 0) {
                        Some(e) => Err(e),
                        None => Ok(
                            (json::number_field(value, "catalog_generation"@)->0 as u64, projects),
                        ),
                    },
                }
            },
            _ => Err(ProtocolError::ProjectsNotArray),
        }
    }
}

fn read_optional(value: &Json, key: &str) -> (r: Result<String, ProtocolError>)
    ensures
        match r {
            Ok(text) => optional_text(*value, key@) == Ok::<Seq<char>, ProtocolError>(text@),
            Err(e) => optional_text(*value, key@) == Err::<Seq<char>, ProtocolError>(e),
        },
{
    match value.get(key) {
        Some(inner) => match inner.as_text() {
            Some(text) => Ok(text.to_owned()),
            None => Err(ProtocolError::MalformedProject),
        },
        None => Ok(String::new()),
    }
}

fn read_required(value: &Json, key: &str) -> (r: Result<String, ProtocolError>)
    ensures
        match r {
            Ok(text) => required_text(*value, key@) == Ok::<Seq<char>, ProtocolError>(text@),
            Err(e) => required_text(*value, key@) == Err::<Seq<char>, ProtocolError>(e),
        },
{
    match value.text_at(key) {
        Some(text) => Ok(text.to_owned()),
        None => Err(ProtocolError::MalformedProject),
    }
}

fn read_branch(value: &Json) -> (r: Result<String, ProtocolError>)
    ensures
        match r {
            Ok(text) => branch_field(*value) == Ok::<Seq<char>, ProtocolError>(text@),
            Err(e) => branch_field(*value) == Err::<Seq<char>, ProtocolError>(e),
        },
{
    let missing = match value.text_at("default_branch") {
        Some(text) => is_blank(text),
        None => true,
    };
    if missing && value.get("sync_branch").is_some() {
        read_required(value, "sync_branch")
    } else {
        read_optional(value, "default_branch")
    }
}

proof fn lemma_heads_prefix(list: Seq<Json>, a: int, b: int)
    requires
        0 <= a <= b,
        parsed_heads(list, a) is Err,
    ensures
        parsed_heads(list, b) == Err::<Seq<AdvertisedHeadView>, ProtocolError>(
            ProtocolError::MalformedProject,
        ),
    decreases b,
{
    if a < b {
        lemma_heads_prefix(list, a, b - 1);
    }
}

fn read_heads(value: &Json, branch: &str) -> (r: Result<Vec<AdvertisedHead>, ProtocolError>)
    ensures
        match r {
            Ok(heads) => heads_field(*value, branch@) == Ok::<
                Seq<AdvertisedHeadView>,
                ProtocolError,
            >(head_views(heads@)),
            Err(e) => heads_field(*value, branch@) == Err::<
                Seq<AdvertisedHeadView>,
                ProtocolError,
            >(e),
        },
{
    match value.get("advertised_heads") {
        Some(inner) => match inner {
            Json::List(list) => {
                let mut heads: Vec<AdvertisedHead> = Vec::new();
                let mut i: usize = 0;
                assert(head_views(heads@) =~= Seq::empty());
                while i < list.len()
                    invariant
                        0 <= i <= list.len(),
                        parsed_heads(list@, i as int) == Ok::<
                            Seq<AdvertisedHeadView>,
                            ProtocolError,
                        >(head_views(heads@)),
                        json::field(*value, "advertised_heads"@) == Some(Json::List(*list)),
                    decreases list.len() - i,
                {
                    let item = &list[i];
                    match (item.record_text_at(2, 0, "name"), item.record_text_at(2, 1, "oid")) {
                        (Some(name), Some(oid)) => {
                            let ghost before = heads@;
                            let head = AdvertisedHead { name: name.to_owned(), oid: oid.to_owned() };
                            let ghost seen = head@;
                            heads.push(head);
                            assert(head_views(heads@) =~= head_views(before).push(seen));
                        },
                        _ => {
                            proof {
                                assert(parsed_heads(list@, i + 1) is Err);
                                lemma_heads_prefix(list@, i + 1, list.len() as int);
                            }
                            return Err(ProtocolError::MalformedProject);
                        },
                    }
                    i += 1;
                }
                Ok(heads)
            },
            _ => Err(ProtocolError::MalformedProject),
        },
        None => match value.text_at("advertised_head_oid") {
            Some(oid) => {
                let heads = vec![AdvertisedHead { name: branch.to_owned(), oid: oid.to_owned() }];
                assert(head_views(heads@) =~= seq![
                    AdvertisedHeadView { name: branch@, oid: oid@ },
                ]);
                Ok(heads)
            },
            None => {
                let heads: Vec<AdvertisedHead> = Vec::new();
                assert(head_views(heads@) =~= Seq::empty());
                Ok(heads)
            },
        },
    }
}

fn read_generation(value: &Json) -> (r: Result<u64, ProtocolError>)
    ensures
        r == generation_field(*value),
{
    match value.get("project_generation") {
        Some(inner) => match inner.as_number() {
            Some(n) => Ok(n),
            None => Err(ProtocolError::MalformedProject),
        },
        None => Ok(0),
    }
}

fn read_extra(value: &Json) -> (r: Vec<(String, Json)>)
    ensures
        json::field_views(r@) == extra_fields(*value),
{
    let mut r: Vec<(String, Json)> = Vec::new();
    assert(json::field_views(r@) =~= Seq::empty());
    match value {
        Json::Object(fields) => {
            let ghost all = json::field_views(fields@);
            let ghost other = |f: (Seq<char>, JsonView)| !is_project_field(f.0);
            let mut i: usize = 0;
            assert(all.take(0) =~= Seq::empty());
            assert(all.take(0).filter(other) =~= Seq::empty()) by {
                reveal(Seq::filter);
            }
            while i < fields.len()
                invariant
                    0 <= i <= fields.len(),
                    all == json::field_views(fields@),
                    other == (|f: (Seq<char>, JsonView)| !is_project_field(f.0)),
                    json::field_views(r@) == all.take(i as int).filter(other),
                decreases fields.len() - i,
            {
                let ghost before = json::field_views(r@);
                assert(all.take(i + 1).drop_last() =~= all.take(i as int));
                assert(all.take(i + 1).last() == (fields@[i as int].0@, fields@[i as int].1@));
                reveal(Seq::filter);
                if !names_project_field(fields[i].0.as_str()) {
                    r.push((fields[i].0.clone(), fields[i].1.copy()));
                    assert(json::field_views(r@) =~= before.push(all[i as int]));
                }
                i += 1;
            }
            assert(all.take(i as int) =~= all);
        },
        _ => {},
    }
    r
}

fn names_project_field(key: &str) -> (r: bool)
    ensures
        r == is_project_field(key@),
{
    same_text(key, "project_id") || same_text(key, "name") || same_text(key, "remote_url")
        || same_text(key, "default_branch") || same_text(key, "advertised_heads") || same_text(
        key,
        "project_generation",
    ) || same_text(key, "sync_branch") || same_text(key, "advertised_head_oid")
}

impl CatalogProject {
    /// Reads a project from an object, under its present or its earlier field names.
    pub fn from_value(value: &Json) -> (r: Result<CatalogProject, ProtocolError>)
        ensures
            match r {
                Ok(p) => parsed_project(*value) == Ok::<CatalogProjectView, ProtocolError>(p@),
                Err(e) => parsed_project(*value) == Err::<CatalogProjectView, ProtocolError>(e),
            },
    {
        match value {
            Json::Object(_) => {},
            _ => {
                return Err(ProtocolError::ProjectNotObject);
            },
        }
        let default_branch = read_branch(value)?;
        let project_id = read_required(value, "project_id");
        let name = read_optional(value, "name");
        let remote_url = read_required(value, "remote_url");
        let heads = read_heads(value, default_branch.as_str());
        let generation = read_generation(value);
        match (project_id, name, remote_url, heads, generation) {
            (
                Ok(project_id),
                Ok(name),
                Ok(remote_url),
                Ok(advertised_heads),
                Ok(project_generation),
            ) => Ok(
                CatalogProject {
                    project_id,
                    name,
                    remote_url,
                    default_branch,
                    advertised_heads,
                    project_generation,
                    extra: read_extra(value),
                },
            ),
            _ => Err(ProtocolError::MalformedProject),
        }
    }
}

proof fn lemma_projects_prefix(list: Seq<Json>, a: int, b: int)
    requires
        0 <= a <= b,
        parsed_projects(list, a) is Err,
    ensures
        parsed_projects(list, b) == parsed_projects(list, a),
    decreases b,
{
    if a < b {
        lemma_projects_prefix(list, a, b - 1);
    }
}

fn all_objects(list: &Vec<Json>) -> (r: bool)
    ensures
        r == are_objects(list@),
{
    let mut i: usize = 0;
    while i < list.len()
        invariant
            0 <= i <= list.len(),
            forall|j: int| 0 <= j < i ==> #[trigger] list@[j] is Object,
        decreases list.len() - i,
    {
        match &list[i] {
            Json::Object(_) => {},
            _ => {
                return false;
            },
        }
        i += 1;
    }
    true
}

fn read_projects(list: &Vec<Json>) -> (r: Result<Vec<CatalogProject>, ProtocolError>)
    ensures
        match r {
            Ok(projects) => parsed_projects(list@, list@.len() as int) == Ok::<
                Seq<CatalogProjectView>,
                ProtocolError,
            >(catalog_views(projects@)),
            Err(e) => parsed_projects(list@, list@.len() as int) == Err::<
                Seq<CatalogProjectView>,
                ProtocolError,
            >(e),
        },
{
    let mut projects: Vec<CatalogProject> = Vec::new();
    let mut i: usize = 0;
    assert(catalog_views(projects@) =~= Seq::empty());
    while i < list.len()
        invariant
            0 <= i <= list.len(),
            parsed_projects(list@, i as int) == Ok::<Seq<CatalogProjectView>, ProtocolError>(
                catalog_views(projects@),
            ),
        decreases list.len() - i,
    {
        match CatalogProject::from_value(&list[i]) {
            Ok(p) => {
                let ghost before = projects@;
                let ghost seen = p@;
                projects.push(p);
                assert(catalog_views(projects@) =~= catalog_views(before).push(seen));
            },
            Err(e) => {
                proof {
                    lemma_projects_prefix(list@, i + 1, list.len() as int);
                }
                return Err(e);
            },
        }
        i += 1;
    }
    Ok(projects)
}

impl Catalog {
    /// Reads a catalog from a document, under the present or the earlier field names, and refuses
    /// one that is of another protocol or not valid.
    pub fn from_value(value: &Json) -> (r: Result<Catalog, ProtocolError>)
        ensures
            match r {
                Ok(catalog) => catalog.protocol@ == PROTOCOL_VERSION@ && parsed_catalog(*value)
                    == Ok::<(u64, Seq<CatalogProjectView>), ProtocolError>(
                    (catalog.catalog_generation, catalog_views(catalog.projects@)),
                ),
                Err(e) => parsed_catalog(*value) == Err::<
                    (u64, Seq<CatalogProjectView>),
                    ProtocolError,
                >(e),
            },
    {
        let compatible = match value.text_at("protocol") {
            Some(text) => same_text(text, PROTOCOL_VERSION),
            None => false,
        };
        let generation = value.number_at("catalog_generation");
        match (compatible, generation) {
            (true, Some(catalog_generation)) => match value.get("projects") {
                Some(inner) => match inner {
                    Json::List(list) => {
                        if !all_objects(list) {
                            return Err(ProtocolError::ProjectNotObject);
                        }
                        let projects = read_projects(list)?;
                        let catalog = Catalog {
                            protocol: PROTOCOL_VERSION.to_owned(),
                            catalog_generation,
                            projects,
                        };
                        match catalog.validate() {
                            Ok(()) => Ok(catalog),
                            Err(e) => Err(e),
                        }
                    },
                    _ => Err(ProtocolError::ProjectsNotArray),
                },
                None => Err(ProtocolError::ProjectsNotArray),
            },
            _ => Err(ProtocolError::IncompatibleCatalog),
        }
    }
}

} // verus!
