//! Leases on names that a provider hands out, and the receipts that prove them.
use vstd::prelude::*;
use crate::address;
use crate::clock;
use crate::credentials;
use crate::digest;
use crate::json;
use crate::paths;
use crate::protocol;
use crate::random;
use crate::state;
use crate::text;
use crate::text_map;
use crate::address::encode_text;
use crate::clock::Timestamp;
use crate::credentials::{canonical_origin, CredentialError};
use crate::digest::{base64_url, sha256_hex};
use crate::hooks::{make_object, number_pair, text_pair};
use crate::identity::{Identity, IdentityView};
use crate::json::{Json, JsonView};
use crate::paths::join_path;
use crate::process::{words1, words3};
use crate::protocol::{
    NamedLease, NamedLeaseListResponse, NamedLeaseMutationResponse, NamedLeaseMutationResponseView,
    NamedLeaseOutcome, NamedLeasePolicy, NamedLeaseView, ProtocolError,
};
use crate::provider::{Discovery, DiscoveryView, ProviderHttpError};
use crate::random::{random_bytes, tagged};
use crate::state::{LocalCatalog, LocalProject, LocalProjectView};
use crate::text::{
    cat3, cat4, cat5, chars_of, contains_text, control, decimal_text, has_prefix, has_suffix,
    list_has, part_of, replace_text, same_text, space, split_text,
};
use crate::text_map::lookup;

verus! {

/// The capability of a provider that hands out named leases.
pub const CAPABILITY: &'static str = "project-named-leases-v1";

/// A project whose named leases can be asked for.
#[derive(Debug, Clone, PartialEq, Eq)]
pub struct NamedLeaseProject {
    pub provider_origin: String,
    pub project_id: String,
    pub token: String,
    pub endpoint: String,
    pub policy: NamedLeasePolicy,
}

/// What a [`NamedLeaseProject`] holds.
pub struct NamedLeaseProjectView {
    pub provider_origin: Seq<char>,
    pub project_id: Seq<char>,
    pub token: Seq<char>,
    pub endpoint: Seq<char>,
    pub policy: NamedLeasePolicy,
}

impl View for NamedLeaseProject {
    type V = NamedLeaseProjectView;

    open spec fn view(&self) -> NamedLeaseProjectView {
        NamedLeaseProjectView {
            provider_origin: self.provider_origin@,
            project_id: self.project_id@,
            token: self.token@,
            endpoint: self.endpoint@,
            policy: self.policy,
        }
    }
}

/// Whether a receipt stands for a lease or for a request that was not answered yet.
#[derive(Debug, Clone, Copy, PartialEq, Eq, Structural)]
pub enum NamedLeaseReceiptState {
    Pending,
    Active,
}

/// A request about a lease that was not answered yet.
#[derive(Debug, Clone, PartialEq, Eq)]
pub struct PendingMutation {
    pub operation: String,
    pub request_id: String,
    pub ttl_seconds: Option<u64>,
}

/// What a [`PendingMutation`] holds.
pub struct PendingMutationView {
    pub operation: Seq<char>,
    pub request_id: Seq<char>,
    pub ttl_seconds: Option<u64>,
}

impl View for PendingMutation {
    type V = PendingMutationView;

    open spec fn view(&self) -> PendingMutationView {
        PendingMutationView {
            operation: self.operation@,
            request_id: self.request_id@,
            ttl_seconds: self.ttl_seconds,
        }
    }
}

impl PendingMutation {
    /// A second value with the same contents.
    pub fn copy(&self) -> (r: Self)
        ensures
            r@ == self@,
    {
        PendingMutation {
            operation: self.operation.clone(),
            request_id: self.request_id.clone(),
            ttl_seconds: self.ttl_seconds,
        }
    }
}

/// What this machine must keep to use a lease.
#[derive(Debug, Clone, PartialEq, Eq)]
pub struct NamedLeaseReceipt {
    pub version: u32,
    pub state: NamedLeaseReceiptState,
    pub provider_origin: String,
    pub project_id: String,
    pub request_id: String,
    pub resource_key: String,
    pub holder_id: String,
    pub holder_secret: String,
    pub requested_ttl_seconds: u64,
    pub lease: Option<NamedLease>,
    pub pending_mutation: Option<PendingMutation>,
}

/// What a [`NamedLeaseReceipt`] holds.
pub struct NamedLeaseReceiptView {
    pub version: u32,
    pub state: NamedLeaseReceiptState,
    pub provider_origin: Seq<char>,
    pub project_id: Seq<char>,
    pub request_id: Seq<char>,
    pub resource_key: Seq<char>,
    pub holder_id: Seq<char>,
    pub holder_secret: Seq<char>,
    pub requested_ttl_seconds: u64,
    pub lease: Option<NamedLeaseView>,
    pub pending_mutation: Option<PendingMutationView>,
}

impl View for NamedLeaseReceipt {
    type V = NamedLeaseReceiptView;

    open spec fn view(&self) -> NamedLeaseReceiptView {
        NamedLeaseReceiptView {
            version: self.version,
            state: self.state,
            provider_origin: self.provider_origin@,
            project_id: self.project_id@,
            request_id: self.request_id@,
            resource_key: self.resource_key@,
            holder_id: self.holder_id@,
            holder_secret: self.holder_secret@,
            requested_ttl_seconds: self.requested_ttl_seconds,
            lease: match self.lease {
                Some(v) => Some(v@),
                None => None,
            },
            pending_mutation: match self.pending_mutation {
                Some(v) => Some(v@),
                None => None,
            },
        }
    }
}

impl NamedLeaseReceipt {
    /// A second value with the same contents.
    pub fn copy(&self) -> (r: Self)
        ensures
            r@ == self@,
    {
        NamedLeaseReceipt {
            version: self.version,
            state: self.state,
            provider_origin: self.provider_origin.clone(),
            project_id: self.project_id.clone(),
            request_id: self.request_id.clone(),
            resource_key: self.resource_key.clone(),
            holder_id: self.holder_id.clone(),
            holder_secret: self.holder_secret.clone(),
            requested_ttl_seconds: self.requested_ttl_seconds,
            lease: match &self.lease {
                Some(v) => Some(v.copy()),
                None => None,
            },
            pending_mutation: match &self.pending_mutation {
                Some(v) => Some(v.copy()),
                None => None,
            },
        }
    }
}

/// An outcome that is not what was asked for, with its status.
#[derive(Debug, Clone, PartialEq, Eq)]
pub struct NamedLeaseProviderOutcome {
    pub status: u16,
    pub response: NamedLeaseMutationResponse,
}

/// What a [`NamedLeaseProviderOutcome`] holds.
pub struct NamedLeaseProviderOutcomeView {
    pub status: u16,
    pub response: NamedLeaseMutationResponseView,
}

impl View for NamedLeaseProviderOutcome {
    type V = NamedLeaseProviderOutcomeView;

    open spec fn view(&self) -> NamedLeaseProviderOutcomeView {
        NamedLeaseProviderOutcomeView {
            status: self.status,
            response: self.response@,
        }
    }
}

impl NamedLeaseProviderOutcome {
    /// A second value with the same contents.
    pub fn copy(&self) -> (r: Self)
        ensures
            r@ == self@,
    {
        NamedLeaseProviderOutcome {
            status: self.status,
            response: self.response.copy(),
        }
    }
}

impl NamedLeaseProviderOutcome {
    /// The message of the outcome.
    pub fn message(&self) -> (r: String)
        ensures
            r@ == "provider returned named-lease outcome "@ + protocol::outcome_text(self.response.outcome)
                + " ("@ + text::decimal(self.status as nat) + ")"@,
    {
        let code = decimal_text(self.status as u64);
        cat5(
            "provider returned named-lease outcome ",
            self.response.outcome.as_str(),
            " (",
            code.as_str(),
            ")",
        )
    }
}

/// What an identifier is of.
#[derive(Debug, Clone, Copy, PartialEq, Eq, Structural)]
pub enum IdentifierKind {
    Project,
    Lease,
}

/// Why a named lease cannot be asked for or used.
#[derive(Debug, Clone, PartialEq, Eq)]
pub enum NamedLeaseError {
    ResourceKey,
    PrefixBoundary,
    PrefixLength,
    Holder,
    Identifier(IdentifierKind),
    Ttl(u64, u64),
    ManyPending,
    NoReceipt,
    ReceiptWithoutLease,
    ReceiptMismatch,
    OtherMutation,
    OutsidePrefix,
    UnknownProject(String),
    NoProvider,
    NotEnrolled,
    NoService,
    ProjectGone,
    NoCapability,
    NoPolicy,
    NoEndpoint,
    NoTemplate,
    NotLoggedIn(String),
    MissingLease,
    Protocol(ProtocolError),
    Credential(CredentialError),
    /// The provider answered with another outcome.
    Outcome(NamedLeaseProviderOutcome),
    /// The provider could not be reached, or what it said could not be read.
    Transport(String),
}

/// What a [`NamedLeaseError`] says.
pub open spec fn named_lease_text(e: NamedLeaseError) -> Seq<char> {
    match e {
        NamedLeaseError::ResourceKey => "invalid named-lease resource key"@,
        NamedLeaseError::PrefixBoundary => "named-lease prefix must end at a slash boundary"@,
        NamedLeaseError::PrefixLength => "named-lease prefix is too long"@,
        NamedLeaseError::Holder => "invalid named-lease holder ID"@,
        NamedLeaseError::Identifier(kind) => match kind {
            IdentifierKind::Project => "invalid named-lease project ID"@,
            IdentifierKind::Lease => "invalid named-lease lease ID"@,
        },
        NamedLeaseError::Ttl(min, max) => "named-lease TTL must be "@ + text::decimal(min as nat) + "-"@
            + text::decimal(max as nat) + " seconds"@,
        NamedLeaseError::ManyPending => {
            "multiple pending named-lease receipts match this acquisition"@
        },
        NamedLeaseError::NoReceipt => {
            "no active named-lease receipt matches that lease and holder"@
        },
        NamedLeaseError::ReceiptWithoutLease => "active receipt has no lease"@,
        NamedLeaseError::ReceiptMismatch => {
            "named-lease receipt does not match the requested authority"@
        },
        NamedLeaseError::OtherMutation => {
            "a different named-lease mutation is awaiting an unambiguous response"@
        },
        NamedLeaseError::OutsidePrefix => {
            "provider returned a named lease outside the requested prefix"@
        },
        NamedLeaseError::UnknownProject(id) => "project "@ + id@
            + " is not in the local catalog"@,
        NamedLeaseError::NoProvider => {
            "project has no provider and no active provider is configured"@
        },
        NamedLeaseError::NotEnrolled => "current checkout is not enrolled with RepoSync"@,
        NamedLeaseError::NoService => "current checkout has no RepoSync service"@,
        NamedLeaseError::ProjectGone => "current project is no longer in the local catalog"@,
        NamedLeaseError::NoCapability => {
            "provider does not support project-named-leases-v1"@
        },
        NamedLeaseError::NoPolicy => "provider omitted named_lease_policy"@,
        NamedLeaseError::NoEndpoint => "provider omitted the named_leases endpoint"@,
        NamedLeaseError::NoTemplate => {
            "provider named_leases endpoint omits the project_id template"@
        },
        NamedLeaseError::NotLoggedIn(origin) => "not logged in to "@ + origin@
            + "; run `resync auth login "@ + origin@ + "`"@,
        NamedLeaseError::MissingLease => "provider response omitted lease"@,
        NamedLeaseError::Protocol(inner) => protocol::protocol_text(inner),
        NamedLeaseError::Credential(inner) => credentials::credential_text(inner),
        NamedLeaseError::Outcome(outcome) => "provider returned named-lease outcome "@
            + protocol::outcome_text(outcome.response.outcome) + " ("@ + text::decimal(outcome.status as nat)
            + ")"@,
        NamedLeaseError::Transport(message) => message@,
    }
}

impl NamedLeaseError {
    /// The message of the error.
    pub fn message(&self) -> (r: String)
        ensures
            r@ == named_lease_text(*self),
    {
        match self {
            NamedLeaseError::ResourceKey => "invalid named-lease resource key".to_owned(),
            NamedLeaseError::PrefixBoundary => {
                "named-lease prefix must end at a slash boundary".to_owned()
            },
            NamedLeaseError::PrefixLength => "named-lease prefix is too long".to_owned(),
            NamedLeaseError::Holder => "invalid named-lease holder ID".to_owned(),
            NamedLeaseError::Identifier(kind) => match kind {
                IdentifierKind::Project => "invalid named-lease project ID".to_owned(),
                IdentifierKind::Lease => "invalid named-lease lease ID".to_owned(),
            },
            NamedLeaseError::Ttl(min, max) => {
                let low = decimal_text(*min);
                let high = decimal_text(*max);
                cat5("named-lease TTL must be ", low.as_str(), "-", high.as_str(), " seconds")
            },
            NamedLeaseError::ManyPending => {
                "multiple pending named-lease receipts match this acquisition".to_owned()
            },
            NamedLeaseError::NoReceipt => {
                "no active named-lease receipt matches that lease and holder".to_owned()
            },
            NamedLeaseError::ReceiptWithoutLease => "active receipt has no lease".to_owned(),
            NamedLeaseError::ReceiptMismatch => {
                "named-lease receipt does not match the requested authority".to_owned()
            },
            NamedLeaseError::OtherMutation => {
                "a different named-lease mutation is awaiting an unambiguous response".to_owned()
            },
            NamedLeaseError::OutsidePrefix => {
                "provider returned a named lease outside the requested prefix".to_owned()
            },
            NamedLeaseError::UnknownProject(id) => {
                cat3("project ", id.as_str(), " is not in the local catalog")
            },
            NamedLeaseError::NoProvider => {
                "project has no provider and no active provider is configured".to_owned()
            },
            NamedLeaseError::NotEnrolled => {
                "current checkout is not enrolled with RepoSync".to_owned()
            },
            NamedLeaseError::NoService => "current checkout has no RepoSync service".to_owned(),
            NamedLeaseError::ProjectGone => {
                "current project is no longer in the local catalog".to_owned()
            },
            NamedLeaseError::NoCapability => {
                "provider does not support project-named-leases-v1".to_owned()
            },
            NamedLeaseError::NoPolicy => "provider omitted named_lease_policy".to_owned(),
            NamedLeaseError::NoEndpoint => "provider omitted the named_leases endpoint".to_owned(),
            NamedLeaseError::NoTemplate => {
                "provider named_leases endpoint omits the project_id template".to_owned()
            },
            NamedLeaseError::NotLoggedIn(origin) => cat5(
                "not logged in to ",
                origin.as_str(),
                "; run `resync auth login ",
                origin.as_str(),
                "`",
            ),
            NamedLeaseError::MissingLease => "provider response omitted lease".to_owned(),
            NamedLeaseError::Protocol(inner) => inner.message(),
            NamedLeaseError::Credential(inner) => inner.message(),
            NamedLeaseError::Outcome(outcome) => outcome.message(),
            NamedLeaseError::Transport(message) => message.clone(),
        }
    }
}

/// A lower-case letter or a decimal digit.
pub open spec fn is_key_start(c: char) -> bool {
    ('a' <= c && c <= 'z') || ('0' <= c && c <= '9')
}

/// A character that a segment of a resource key may hold.
pub open spec fn is_key_char(c: char) -> bool {
    is_key_start(c) || c == '.' || c == '_' || c == '-'
}

/// A segment of a resource key: up to 63 of the allowed characters, the first of them a letter or
/// a digit.
pub open spec fn is_segment(s: Seq<char>) -> bool {
    0 < s.len() <= 63 && is_key_start(s[0]) && forall|i: int|
        0 <= i < s.len() ==> is_key_char(#[trigger] s[i])
}

/// A resource key: up to 255 characters that slashes part into segments.
pub open spec fn is_resource_key(s: Seq<char>) -> bool {
    0 < s.len() <= 255 && forall|i: int|
        0 <= i < text::split(s, '/').len() ==> is_segment(#[trigger] text::split(s, '/')[i])
}

/// A prefix of resource keys: a resource key and a slash, up to 255 characters together.
pub open spec fn is_resource_prefix(s: Seq<char>) -> bool {
    s.len() > 0 && s.last() == '/' && s.len() <= 255 && is_resource_key(s.drop_last())
}

fn valid_resource_segment(s: &str) -> (r: bool)
    ensures
        r == is_segment(s@),
{
    let c = chars_of(s);
    if c.len() == 0 || c.len() > 63 {
        return false;
    }
    if !(('a' <= c[0] && c[0] <= 'z') || ('0' <= c[0] && c[0] <= '9')) {
        return false;
    }
    let mut i: usize = 0;
    while i < c.len()
        invariant
            0 <= i <= c.len(),
            c@ == s@,
            forall|j: int| 0 <= j < i ==> is_key_char(#[trigger] s@[j]),
        decreases c.len() - i,
    {
        if !(('a' <= c[i] && c[i] <= 'z') || ('0' <= c[i] && c[i] <= '9') || c[i] == '.' || c[i]
            == '_' || c[i] == '-') {
            assert(!is_key_char(s@[i as int]));
            return false;
        }
        i += 1;
    }
    true
}

fn is_key(s: &str) -> (r: bool)
    ensures
        r == is_resource_key(s@),
{
    let c = chars_of(s);
    if c.len() == 0 || c.len() > 255 {
        return false;
    }
    let pieces = split_text(s, '/');
    let ghost all = text::split(s@, '/');
    let mut i: usize = 0;
    while i < pieces.len()
        invariant
            0 <= i <= pieces.len(),
            all == text::split(s@, '/'),
            all == text::views(pieces@),
            forall|j: int| 0 <= j < i ==> is_segment(#[trigger] all[j]),
        decreases pieces.len() - i,
    {
        assert(all[i as int] == pieces@[i as int]@);
        if !valid_resource_segment(pieces[i].as_str()) {
            assert(!is_segment(all[i as int]));
            return false;
        }
        i += 1;
    }
    true
}

/// Refuses what is no resource key.
pub fn validate_resource_key(value: &str) -> (r: Result<(), NamedLeaseError>)
    ensures
        match r {
            Ok(()) => is_resource_key(value@),
            Err(e) => !is_resource_key(value@) && e is ResourceKey,
        },
{
    if is_key(value) {
        Ok(())
    } else {
        Err(NamedLeaseError::ResourceKey)
    }
}

/// Whether an error says why a text is no prefix of resource keys.
pub open spec fn is_prefix_error(value: Seq<char>, e: NamedLeaseError) -> bool {
    if value.len() == 0 || value.last() != '/' {
        e == NamedLeaseError::PrefixBoundary
    } else if vstd::utf8::encode_utf8(value).len() > 255 {
        e == NamedLeaseError::PrefixLength
    } else {
        !is_resource_key(value.drop_last()) && e == NamedLeaseError::ResourceKey
    }
}

/// Refuses what is no prefix of resource keys.
pub fn validate_resource_prefix(value: &str) -> (r: Result<(), NamedLeaseError>)
    ensures
        match r {
            Ok(()) => is_resource_prefix(value@),
            Err(e) => is_prefix_error(value@, e),
        },
{
    let c = chars_of(value);
    if c.len() == 0 || c[c.len() - 1] != '/' {
        return Err(NamedLeaseError::PrefixBoundary);
    }
    if value.as_bytes().len() > 255 {
        return Err(NamedLeaseError::PrefixLength);
    }
    let key = part_of(&c, 0, c.len() - 1);
    assert(key@ =~= value@.drop_last());
    if is_key(key.as_str()) {
        proof {
            lemma_no_shorter_bytes(value@);
        }
        Ok(())
    } else {
        Err(NamedLeaseError::ResourceKey)
    }
}

/// A text has at least as many bytes as characters.
proof fn lemma_no_shorter_bytes(s: Seq<char>)
    ensures
        vstd::utf8::encode_utf8(s).len() >= s.len(),
    decreases s.len(),
{
    if s.len() > 0 {
        lemma_no_shorter_bytes(s.drop_first());
        vstd::utf8::encode_utf8_first_scalar(s);
    }
}

/// A prefix matches whole segments: the keys that start with it have its segments as their first
/// segments.
pub proof fn law_prefix_matches_segments(prefix: Seq<char>, key: Seq<char>)
    requires
        is_resource_prefix(prefix),
        prefix.is_prefix_of(key),
    ensures
        text::split(prefix.drop_last(), '/').is_prefix_of(text::split(key, '/')),
{
    let front = prefix.drop_last();
    let rest = key.skip(prefix.len() as int);
    assert(front.push('/') =~= prefix);
    assert(key =~= front.push('/') + rest);
    text::lemma_split_concat(front, rest, '/');
    assert(text::split(front, '/') =~= text::split(key, '/').subrange(0, text::split(front, '/').len() as int));
}

/// An identifier of a holder: up to 255 bytes, without control characters and whitespace.
pub open spec fn is_holder(s: Seq<char>) -> bool {
    s.len() > 0 && vstd::utf8::encode_utf8(s).len() <= 255 && forall|i: int|
        0 <= i < s.len() ==> !text::is_control(#[trigger] s[i]) && !text::is_space(s[i])
}

/// Refuses what is no identifier of a holder.
pub fn validate_holder_id(value: &str) -> (r: Result<(), NamedLeaseError>)
    ensures
        match r {
            Ok(()) => is_holder(value@),
            Err(e) => !is_holder(value@) && e is Holder,
        },
{
    let c = chars_of(value);
    if c.len() == 0 || value.as_bytes().len() > 255 {
        return Err(NamedLeaseError::Holder);
    }
    let mut i: usize = 0;
    while i < c.len()
        invariant
            0 <= i <= c.len(),
            c@ == value@,
            c.len() > 0,
            vstd::utf8::encode_utf8(value@).len() <= 255,
            forall|j: int|
                0 <= j < i ==> !text::is_control(#[trigger] value@[j]) && !text::is_space(value@[j]),
        decreases c.len() - i,
    {
        if control(c[i]) || space(c[i]) {
            assert(text::is_control(value@[i as int]) || text::is_space(value@[i as int]));
            return Err(NamedLeaseError::Holder);
        }
        i += 1;
    }
    Ok(())
}

/// A letter, a digit, or an underscore.
pub open spec fn is_word_char(c: char) -> bool {
    ('a' <= c && c <= 'z') || ('A' <= c && c <= 'Z') || ('0' <= c && c <= '9') || c == '_'
}

/// An identifier with the given start: up to 100 letters, digits and underscores.
pub open spec fn is_identifier(s: Seq<char>, prefix: Seq<char>) -> bool {
    prefix.is_prefix_of(s) && s.len() <= 100 && forall|i: int|
        0 <= i < s.len() ==> is_word_char(#[trigger] s[i])
}

fn check_identifier(value: &str, prefix: &str) -> (r: bool)
    ensures
        r == is_identifier(value@, prefix@),
{
    let c = chars_of(value);
    if !has_prefix(value, prefix) || c.len() > 100 {
        return false;
    }
    let mut i: usize = 0;
    while i < c.len()
        invariant
            0 <= i <= c.len(),
            c@ == value@,
            forall|j: int| 0 <= j < i ==> is_word_char(#[trigger] value@[j]),
        decreases c.len() - i,
    {
        if !(('a' <= c[i] && c[i] <= 'z') || ('A' <= c[i] && c[i] <= 'Z') || ('0' <= c[i] && c[i]
            <= '9') || c[i] == '_') {
            assert(!is_word_char(value@[i as int]));
            return false;
        }
        i += 1;
    }
    true
}

/// The start of the identifiers of a kind.
pub open spec fn identifier_start(kind: IdentifierKind) -> Seq<char> {
    match kind {
        IdentifierKind::Project => "prj_"@,
        IdentifierKind::Lease => "nls_"@,
    }
}

/// Refuses what is no identifier of a kind.
pub fn validate_identifier(value: &str, kind: IdentifierKind) -> (r: Result<(), NamedLeaseError>)
    ensures
        match r {
            Ok(()) => is_identifier(value@, identifier_start(kind)),
            Err(e) => !is_identifier(value@, identifier_start(kind)) && (
            e matches NamedLeaseError::Identifier(k) && k == kind),
        },
{
    let ok = match kind {
        IdentifierKind::Project => check_identifier(value, "prj_"),
        IdentifierKind::Lease => check_identifier(value, "nls_"),
    };
    if ok {
        Ok(())
    } else {
        Err(NamedLeaseError::Identifier(kind))
    }
}

/// A time to live within the bounds of a policy.
pub open spec fn allowed_ttl(policy: NamedLeasePolicy, ttl: u64) -> bool {
    policy.min_ttl_seconds <= ttl <= policy.max_ttl_seconds
}

/// Refuses a time to live outside of the bounds of a policy.
pub fn validate_ttl(policy: &NamedLeasePolicy, ttl: u64) -> (r: Result<(), NamedLeaseError>)
    ensures
        match r {
            Ok(()) => allowed_ttl(*policy, ttl),
            Err(e) => !allowed_ttl(*policy, ttl) && (e matches NamedLeaseError::Ttl(min, max) && min
                == policy.min_ttl_seconds && max == policy.max_ttl_seconds),
        },
{
    if ttl < policy.min_ttl_seconds || ttl > policy.max_ttl_seconds {
        return Err(NamedLeaseError::Ttl(policy.min_ttl_seconds, policy.max_ttl_seconds));
    }
    Ok(())
}

/// The eight bytes of a number, the highest first.
pub open spec fn number_bytes(n: u64) -> Seq<u8> {
    seq![
        (n / 0x100000000000000 % 256) as u8,
        (n / 0x1000000000000 % 256) as u8,
        (n / 0x10000000000 % 256) as u8,
        (n / 0x100000000 % 256) as u8,
        (n / 0x1000000 % 256) as u8,
        (n / 0x10000 % 256) as u8,
        (n / 0x100 % 256) as u8,
        (n % 256) as u8,
    ]
}

/// A text behind the number of its bytes.
pub open spec fn framed_text(s: Seq<char>) -> Seq<u8> {
    number_bytes(vstd::utf8::encode_utf8(s).len() as u64) + vstd::utf8::encode_utf8(s)
}

/// Texts one after the other, each behind the number of its bytes.
pub open spec fn framed(fields: Seq<Seq<char>>) -> Seq<u8>
    decreases fields.len(),
{
    if fields.len() == 0 {
        Seq::empty()
    } else {
        framed(fields.drop_last()) + framed_text(fields.last())
    }
}

/// The digest of texts, taken so that it tells apart where one ends and the next begins.
pub open spec fn fields_digest(fields: Seq<Seq<char>>) -> Seq<char> {
    digest::sha256_text(framed(fields))
}

fn push_number(bytes: &mut Vec<u8>, n: u64)
    ensures
        final(bytes)@ == old(bytes)@ + number_bytes(n),
{
    bytes.push((n / 0x100000000000000 % 256) as u8);
    bytes.push((n / 0x1000000000000 % 256) as u8);
    bytes.push((n / 0x10000000000 % 256) as u8);
    bytes.push((n / 0x100000000 % 256) as u8);
    bytes.push((n / 0x1000000 % 256) as u8);
    bytes.push((n / 0x10000 % 256) as u8);
    bytes.push((n / 0x100 % 256) as u8);
    bytes.push((n % 256) as u8);
    assert(bytes@ =~= old(bytes)@ + number_bytes(n));
}

fn push_text(bytes: &mut Vec<u8>, s: &str)
    ensures
        final(bytes)@ == old(bytes)@ + framed_text(s@),
{
    let raw = s.as_bytes();
    push_number(bytes, raw.len() as u64);
    let ghost front = bytes@;
    let mut i: usize = 0;
    while i < raw.len()
        invariant
            0 <= i <= raw.len(),
            bytes@ == front + raw@.take(i as int),
        decreases raw.len() - i,
    {
        bytes.push(raw[i]);
        assert(raw@.take(i + 1) =~= raw@.take(i as int).push(raw@[i as int]));
        assert(bytes@ =~= front + raw@.take(i + 1));
        i += 1;
    }
    assert(raw@.take(i as int) =~= raw@);
    assert(bytes@ =~= old(bytes)@ + framed_text(s@));
}

/// The digest of texts.
pub fn hash(fields: &Vec<String>) -> (r: String)
    ensures
        r@ == fields_digest(text::views(fields@)),
        r@.len() == 64,
        digest::all_hex(r@),
{
    let ghost all = text::views(fields@);
    let mut bytes: Vec<u8> = Vec::new();
    let mut i: usize = 0;
    assert(all.take(0) =~= Seq::empty());
    while i < fields.len()
        invariant
            0 <= i <= fields.len(),
            all == text::views(fields@),
            bytes@ == framed(all.take(i as int)),
        decreases fields.len() - i,
    {
        assert(all.take(i + 1).drop_last() =~= all.take(i as int));
        assert(all.take(i + 1).last() == fields@[i as int]@);
        push_text(&mut bytes, fields[i].as_str());
        i += 1;
    }
    assert(all.take(i as int) =~= all);
    sha256_hex(bytes.as_slice())
}

proof fn lemma_number_bytes(a: u64, b: u64)
    requires
        number_bytes(a) == number_bytes(b),
    ensures
        a == b,
{
    let x = number_bytes(a);
    let y = number_bytes(b);
    assert(x[0] == y[0] && x[1] == y[1] && x[2] == y[2] && x[3] == y[3] && x[4] == y[4] && x[5]
        == y[5] && x[6] == y[6] && x[7] == y[7]);
    assert(a == b) by (bit_vector)
        requires
            a / 0x100000000000000u64 % 256u64 == b / 0x100000000000000u64 % 256u64,
            a / 0x1000000000000u64 % 256u64 == b / 0x1000000000000u64 % 256u64,
            a / 0x10000000000u64 % 256u64 == b / 0x10000000000u64 % 256u64,
            a / 0x100000000u64 % 256u64 == b / 0x100000000u64 % 256u64,
            a / 0x1000000u64 % 256u64 == b / 0x1000000u64 % 256u64,
            a / 0x10000u64 % 256u64 == b / 0x10000u64 % 256u64,
            a / 0x100u64 % 256u64 == b / 0x100u64 % 256u64,
            a % 256u64 == b % 256u64,
    ;
}

proof fn lemma_framed_text(a: Seq<char>, x: Seq<u8>, b: Seq<char>, y: Seq<u8>)
    requires
        framed_text(a) + x == framed_text(b) + y,
        vstd::utf8::encode_utf8(a).len() <= u64::MAX,
        vstd::utf8::encode_utf8(b).len() <= u64::MAX,
    ensures
        a == b,
        x == y,
{
    let p = vstd::utf8::encode_utf8(a);
    let q = vstd::utf8::encode_utf8(b);
    let m = number_bytes(p.len() as u64);
    let n = number_bytes(q.len() as u64);
    let left = m + p + x;
    let right = n + q + y;
    assert(m.len() == 8 && n.len() == 8);
    assert(left == right);
    assert(m =~= left.subrange(0, 8));
    assert(n =~= right.subrange(0, 8));
    lemma_number_bytes(p.len() as u64, q.len() as u64);
    assert(p =~= left.subrange(8, 8 + p.len() as int));
    assert(q =~= right.subrange(8, 8 + q.len() as int));
    assert(p == q);
    vstd::utf8::encode_utf8_decode_utf8(a);
    vstd::utf8::encode_utf8_decode_utf8(b);
    assert(x =~= left.skip(8 + p.len() as int));
    assert(y =~= right.skip(8 + q.len() as int));
}

proof fn lemma_framed_front(first: Seq<char>, rest: Seq<Seq<char>>)
    ensures
        framed(seq![first] + rest) == framed_text(first) + framed(rest),
    decreases rest.len(),
{
    let whole = seq![first] + rest;
    if rest.len() == 0 {
        assert(whole.drop_last() =~= Seq::empty());
        assert(framed(whole.drop_last()) =~= Seq::empty());
        assert(framed(whole) =~= framed_text(first) + framed(rest));
    } else {
        assert(whole.drop_last() =~= seq![first] + rest.drop_last());
        assert(whole.last() == rest.last());
        lemma_framed_front(first, rest.drop_last());
        assert(framed(whole) =~= framed_text(first) + framed(rest));
    }
}

proof fn lemma_framed_not_empty(fields: Seq<Seq<char>>)
    requires
        fields.len() > 0,
    ensures
        framed(fields).len() > 0,
{
    let last = fields.last();
    assert(number_bytes(vstd::utf8::encode_utf8(last).len() as u64).len() == 8);
    assert(framed_text(last).len() >= 8);
}

/// Different lists of texts are never digested as the same bytes, whatever the texts hold.
pub proof fn law_framing_is_unambiguous(a: Seq<Seq<char>>, b: Seq<Seq<char>>)
    requires
        framed(a) == framed(b),
        forall|i: int|
            0 <= i < a.len() ==> vstd::utf8::encode_utf8(#[trigger] a[i]).len() <= u64::MAX,
        forall|i: int|
            0 <= i < b.len() ==> vstd::utf8::encode_utf8(#[trigger] b[i]).len() <= u64::MAX,
    ensures
        a == b,
    decreases a.len(),
{
    if a.len() == 0 {
        if b.len() > 0 {
            lemma_framed_not_empty(b);
        }
        assert(a =~= b);
    } else if b.len() == 0 {
        lemma_framed_not_empty(a);
    } else {
        let x = a.skip(1);
        let y = b.skip(1);
        assert(a =~= seq![a[0]] + x);
        assert(b =~= seq![b[0]] + y);
        lemma_framed_front(a[0], x);
        lemma_framed_front(b[0], y);
        lemma_framed_text(a[0], framed(x), b[0], framed(y));
        assert forall|i: int| 0 <= i < x.len() implies vstd::utf8::encode_utf8(
            #[trigger] x[i],
        ).len() <= u64::MAX by {
            assert(x[i] == a[i + 1]);
        }
        assert forall|i: int| 0 <= i < y.len() implies vstd::utf8::encode_utf8(
            #[trigger] y[i],
        ).len() <= u64::MAX by {
            assert(y[i] == b[i + 1]);
        }
        law_framing_is_unambiguous(x, y);
    }
}

/// The file of a request that was not answered yet.
pub open spec fn pending_path(
    directory: Seq<char>,
    project_id: Seq<char>,
    resource_key: Seq<char>,
    holder_id: Seq<char>,
) -> Seq<char> {
    paths::joined(
        directory,
        "pending-"@ + fields_digest(seq![project_id, resource_key, holder_id]) + ".json"@,
    )
}

/// The file of a lease.
pub open spec fn active_path(
    directory: Seq<char>,
    lease_id: Seq<char>,
    holder_id: Seq<char>,
) -> Seq<char> {
    paths::joined(directory, lease_id + "-"@ + fields_digest(seq![holder_id]) + ".json"@)
}

/// The directory of the receipts of a project.
pub fn receipt_project_directory(receipts: &str, project: &NamedLeaseProject) -> (r: String)
    ensures
        r@ == paths::joined(
            paths::joined(receipts@, fields_digest(seq![project@.provider_origin])),
            project@.project_id,
        ),
{
    let digest = hash(&words1(project.provider_origin.as_str()));
    let origin = join_path(receipts, digest.as_str());
    join_path(origin.as_str(), project.project_id.as_str())
}

/// Where the receipt of a request that was not answered yet is kept.
pub fn pending_receipt_path(directory: &str, receipt: &NamedLeaseReceipt) -> (r: String)
    ensures
        r@ == pending_path(
            directory@,
            receipt@.project_id,
            receipt@.resource_key,
            receipt@.holder_id,
        ),
{
    let digest = hash(
        &words3(
            receipt.project_id.as_str(),
            receipt.resource_key.as_str(),
            receipt.holder_id.as_str(),
        ),
    );
    let name = cat3("pending-", digest.as_str(), ".json");
    join_path(directory, name.as_str())
}

/// Where the receipt of a lease is kept.
pub fn active_receipt_path(directory: &str, lease_id: &str, holder_id: &str) -> (r: String)
    ensures
        r@ == active_path(directory@, lease_id@, holder_id@),
{
    let digest = hash(&words1(holder_id));
    let name = cat4(lease_id, "-", digest.as_str(), ".json");
    join_path(directory, name.as_str())
}

/// Whatever the holder is called, the receipt of a lease lies directly in the directory of the
/// receipts: its name has no slash, and it is no longer than its parts.
pub proof fn law_receipt_stays_inside(
    directory: Seq<char>,
    lease_id: Seq<char>,
    holder_id: Seq<char>,
    digest: Seq<char>,
)
    requires
        is_identifier(lease_id, "nls_"@),
        digest == fields_digest(seq![holder_id]),
        digest::all_hex(digest),
        directory.len() > 0,
        directory.last() != '/',
    ensures
        ({
            let name = lease_id + "-"@ + digest + ".json"@;
            &&& active_path(directory, lease_id, holder_id) == directory + seq!['/'] + name
            &&& !name.contains('/')
        }),
{
    reveal_strlit("nls_");
    reveal_strlit("-");
    reveal_strlit(".json");
    let name = lease_id + "-"@ + digest + ".json"@;
    assert(lease_id.len() >= 4);
    assert(name[0] == lease_id[0]);
    assert(lease_id.subrange(0, 4)[0] == lease_id[0]);
    assert("nls_"@[0] == 'n');
    assert forall|i: int| 0 <= i < name.len() implies name[i] != '/' by {
        if i < lease_id.len() {
            assert(is_word_char(lease_id[i]));
        } else if i == lease_id.len() {
            assert(name[i] == "-"@[0]);
        } else if i < lease_id.len() + 1 + digest.len() {
            assert(name[i] == digest[i - lease_id.len() - 1]);
            assert(digest::is_hex(digest[i - lease_id.len() - 1]));
        } else {
            assert(name[i] == ".json"@[i - lease_id.len() - 1 - digest.len()]);
        }
    }
}

/// The position of the first project with an identifier.
pub open spec fn project_position(
    projects: Seq<LocalProjectView>,
    id: Seq<char>,
    from: int,
) -> Option<int>
    decreases projects.len() - from,
{
    if from < 0 || from >= projects.len() {
        None
    } else if projects[from].project_id == id {
        Some(from)
    } else {
        project_position(projects, id, from + 1)
    }
}

fn find_by_id(projects: &Vec<LocalProject>, id: &str) -> (r: Option<usize>)
    ensures
        match r {
            Some(i) => i < projects.len() && project_position(state::project_views(projects@), id@, 0)
                == Some(i as int),
            None => project_position(state::project_views(projects@), id@, 0) is None,
        },
{
    let ghost all = state::project_views(projects@);
    let mut i: usize = 0;
    while i < projects.len()
        invariant
            0 <= i <= projects.len(),
            all == state::project_views(projects@),
            project_position(all, id@, 0) == project_position(all, id@, i as int),
        decreases projects.len() - i,
    {
        assert(all[i as int] == projects@[i as int]@);
        if same_text(projects[i].project_id.as_str(), id) {
            return Some(i);
        }
        i += 1;
    }
    None
}

/// A project of the catalog and the origin of its provider.
#[derive(Debug, Clone, PartialEq, Eq)]
pub struct ResolvedProject {
    pub index: usize,
    pub origin: String,
}

/// The project that is meant and the provider as it is written: the named one with its own
/// provider or the active one, else that of the checkout.
pub open spec fn meant_project(
    project_id: Option<Seq<char>>,
    projects: Seq<LocalProjectView>,
    active_provider: Option<Seq<char>>,
    identity: Option<IdentityView>,
) -> Option<(int, Seq<char>)> {
    match project_id {
        Some(id) => match project_position(projects, id, 0) {
            Some(i) => match (projects[i].service, active_provider) {
                (Some(service), _) => Some((i, service)),
                (None, Some(active)) => Some((i, active)),
                (None, None) => None,
            },
            None => None,
        },
        None => match identity {
            Some(here) => match (here.project_id, here.service) {
                (Some(id), Some(service)) => match project_position(projects, id, 0) {
                    Some(i) => Some((i, service)),
                    None => None,
                },
                _ => None,
            },
            None => None,
        },
    }
}

/// Finds the project whose leases are asked for: the named one, else that of the checkout.
pub fn resolve_project(
    project_id: &Option<String>,
    catalog: &LocalCatalog,
    active_provider: &Option<String>,
    identity: &Option<Identity>,
) -> (r: Result<ResolvedProject, NamedLeaseError>)
    ensures
        ({
            let here = match *identity {
                Some(identity) => Some(identity@),
                None => None,
            };
            let meant = meant_project(
                text::opt_view(*project_id),
                state::project_views(catalog.projects@),
                text::opt_view(*active_provider),
                here,
            );
            match r {
                Ok(found) => {
                    &&& meant matches Some((index, written))
                    &&& found.index == index
                    &&& found.index < catalog.projects.len()
                    &&& credentials::origin_of(written) == Some(found.origin@)
                },
                Err(NamedLeaseError::Credential(e)) => meant matches Some((_, written))
                    && credentials::is_refusal(written, e),
                Err(NamedLeaseError::UnknownProject(id)) => meant is None && text::opt_view(*project_id)
                    == Some(id@) && project_position(
                    state::project_views(catalog.projects@),
                    id@,
                    0,
                ) is None,
                Err(NamedLeaseError::NoProvider) => meant is None && project_id is Some
                    && project_position(
                    state::project_views(catalog.projects@),
                    project_id->0@,
                    0,
                ) is Some,
                Err(NamedLeaseError::NotEnrolled) => project_id is None && (here is None
                    || here->0.project_id is None),
                Err(NamedLeaseError::NoService) => project_id is None && here is Some
                    && here->0.project_id is Some && here->0.service is None,
                Err(NamedLeaseError::ProjectGone) => meant is None && project_id is None && here
                    is Some && here->0.project_id is Some && here->0.service is Some,
                Err(_) => false,
            }
        }),
{
    let ghost all = state::project_views(catalog.projects@);
    match project_id {
        Some(id) => match find_by_id(&catalog.projects, id.as_str()) {
            Some(index) => {
                assert(all[index as int] == catalog.projects@[index as int]@);
                let written = match (&catalog.projects[index].service, active_provider) {
                    (Some(service), _) => service,
                    (None, Some(active)) => active,
                    (None, None) => {
                        return Err(NamedLeaseError::NoProvider);
                    },
                };
                match canonical_origin(written.as_str()) {
                    Ok(origin) => Ok(ResolvedProject { index, origin }),
                    Err(e) => Err(NamedLeaseError::Credential(e)),
                }
            },
            None => Err(NamedLeaseError::UnknownProject(id.clone())),
        },
        None => match identity {
            None => Err(NamedLeaseError::NotEnrolled),
            Some(here) => match (&here.project_id, &here.service) {
                (None, _) => Err(NamedLeaseError::NotEnrolled),
                (Some(_), None) => Err(NamedLeaseError::NoService),
                (Some(id), Some(service)) => match find_by_id(&catalog.projects, id.as_str()) {
                    Some(index) => match canonical_origin(service.as_str()) {
                        Ok(origin) => Ok(ResolvedProject { index, origin }),
                        Err(e) => Err(NamedLeaseError::Credential(e)),
                    },
                    None => Err(NamedLeaseError::ProjectGone),
                },
            },
        },
    }
}

/// The endpoint of the leases of a project: the template with the identifier in both of its
/// places.
pub open spec fn lease_endpoint(template: Seq<char>, project_id: Seq<char>) -> Seq<char> {
    text::replaced(
        text::replaced(template, "{project_id}"@, address::encoded_text(project_id)),
        "%7Bproject_id%7D"@,
        address::encoded_text(project_id),
    )
}

/// Whether a template has a place for the project.
pub open spec fn has_project_place(template: Seq<char>) -> bool {
    text::has_part(template, "{project_id}"@) || text::has_part(template, "%7Bproject_id%7D"@)
}

/// Whether a provider hands out named leases for a project.
pub open spec fn leases_offered(project_id: Seq<char>, d: DiscoveryView) -> bool {
    &&& is_identifier(project_id, "prj_"@)
    &&& d.capabilities.contains(CAPABILITY@)
    &&& d.named_lease_policy is Some
    &&& protocol::valid_policy(d.named_lease_policy->0)
    &&& text_map::text_at(d.endpoints, "named_leases"@) is Some
    &&& has_project_place(text_map::text_at(d.endpoints, "named_leases"@)->0)
}

/// Whether an error names the first thing that a provider lacks for named leases of a project.
pub open spec fn is_offer_error(project_id: Seq<char>, d: DiscoveryView, e: NamedLeaseError) -> bool {
    let template = text_map::text_at(d.endpoints, "named_leases"@);
    if !is_identifier(project_id, "prj_"@) {
        e == NamedLeaseError::Identifier(IdentifierKind::Project)
    } else if !d.capabilities.contains(CAPABILITY@) {
        e == NamedLeaseError::NoCapability
    } else if d.named_lease_policy is None {
        e == NamedLeaseError::NoPolicy
    } else if !protocol::valid_policy(d.named_lease_policy->0) {
        e == NamedLeaseError::Protocol(ProtocolError::InvalidTtlPolicy)
    } else if template is None {
        e == NamedLeaseError::NoEndpoint
    } else {
        !has_project_place(template->0) && e == NamedLeaseError::NoTemplate
    }
}

/// A project whose leases can be asked for, if its provider hands them out and the user is logged
/// in.
pub fn resolve_discovered_project(
    project_id: &str,
    origin: &str,
    discovery: &Discovery,
    token: &Option<String>,
) -> (r: Result<NamedLeaseProject, NamedLeaseError>)
    ensures
        match r {
            Ok(project) => {
                &&& leases_offered(project_id@, discovery@)
                &&& token is Some
                &&& project@ == (NamedLeaseProjectView {
                    provider_origin: origin@,
                    project_id: project_id@,
                    token: token->0@,
                    endpoint: lease_endpoint(
                        text_map::text_at(discovery@.endpoints, "named_leases"@)->0,
                        project_id@,
                    ),
                    policy: discovery.named_lease_policy->0,
                })
            },
            Err(NamedLeaseError::NotLoggedIn(o)) => o@ == origin@ && token is None
                && leases_offered(project_id@, discovery@),
            Err(e) => is_offer_error(project_id@, discovery@, e),
        },
{
    match validate_identifier(project_id, IdentifierKind::Project) {
        Ok(()) => {},
        Err(e) => {
            return Err(e);
        },
    }
    if !list_has(&discovery.capabilities, CAPABILITY) {
        return Err(NamedLeaseError::NoCapability);
    }
    let policy = match discovery.named_lease_policy {
        Some(policy) => policy,
        None => {
            return Err(NamedLeaseError::NoPolicy);
        },
    };
    match policy.validate() {
        Ok(()) => {},
        Err(e) => {
            return Err(NamedLeaseError::Protocol(e));
        },
    }
    let template = match lookup(&discovery.endpoints, "named_leases") {
        Some(template) => template,
        None => {
            return Err(NamedLeaseError::NoEndpoint);
        },
    };
    if !contains_text(template.as_str(), "{project_id}") && !contains_text(
        template.as_str(),
        "%7Bproject_id%7D",
    ) {
        return Err(NamedLeaseError::NoTemplate);
    }
    proof {
        reveal_strlit("{project_id}");
        reveal_strlit("%7Bproject_id%7D");
    }
    let encoded_id = encode_text(project_id);
    let half = replace_text(template.as_str(), "{project_id}", encoded_id.as_str());
    let endpoint = replace_text(half.as_str(), "%7Bproject_id%7D", encoded_id.as_str());
    match token {
        Some(token) => Ok(
            NamedLeaseProject {
                provider_origin: origin.to_owned(),
                project_id: project_id.to_owned(),
                token: token.clone(),
                endpoint,
                policy,
            },
        ),
        None => Err(NamedLeaseError::NotLoggedIn(origin.to_owned())),
    }
}

/// Whether a file holds a request that was not answered yet, by its name.
pub fn is_pending_file(name: &str) -> (r: bool)
    ensures
        r == ("pending-"@.is_prefix_of(name@) && ".json"@.is_suffix_of(name@)),
{
    has_prefix(name, "pending-") && has_suffix(name, ".json")
}

/// A receipt of a request for the given resource that was not answered yet.
pub open spec fn matches_request(
    r: NamedLeaseReceiptView,
    origin: Seq<char>,
    project_id: Seq<char>,
    resource_key: Seq<char>,
    holder_id: Option<Seq<char>>,
) -> bool {
    r.state == NamedLeaseReceiptState::Pending && r.provider_origin == origin && r.project_id
        == project_id && r.resource_key == resource_key && (holder_id is None || r.holder_id
        == holder_id->0)
}

/// The contents of a list of receipts.
pub open spec fn receipt_views(list: Seq<NamedLeaseReceipt>) -> Seq<NamedLeaseReceiptView> {
    list.map_values(|r: NamedLeaseReceipt| r@)
}

/// Finds the one receipt of a request for a resource that was not answered yet.
pub fn find_pending_receipt(
    receipts: &Vec<NamedLeaseReceipt>,
    project: &NamedLeaseProject,
    resource_key: &str,
    holder_id: &Option<String>,
) -> (r: Result<Option<usize>, NamedLeaseError>)
    ensures
        ({
            let fits = |i: int|
                matches_request(
                    receipts@[i]@,
                    project@.provider_origin,
                    project@.project_id,
                    resource_key@,
                    text::opt_view(*holder_id),
                );
            match r {
                Ok(Some(i)) => i < receipts.len() && fits(i as int) && forall|j: int|
                    0 <= j < receipts.len() && j != i ==> !#[trigger] fits(j),
                Ok(None) => forall|j: int| 0 <= j < receipts.len() ==> !#[trigger] fits(j),
                Err(e) => e is ManyPending && exists|i: int, j: int|
                    0 <= i < j < receipts.len() && #[trigger] fits(i) && #[trigger] fits(j),
            }
        }),
{
    let ghost fits = |i: int|
        matches_request(
            receipts@[i]@,
            project@.provider_origin,
            project@.project_id,
            resource_key@,
            text::opt_view(*holder_id),
        );
    let mut found: Option<usize> = None;
    let mut i: usize = 0;
    while i < receipts.len()
        invariant
            0 <= i <= receipts.len(),
            fits == (|i: int|
                matches_request(
                    receipts@[i]@,
                    project@.provider_origin,
                    project@.project_id,
                    resource_key@,
                    text::opt_view(*holder_id),
                )),
            match found {
                Some(k) => k < i && fits(k as int) && forall|j: int|
                    0 <= j < i && j != k ==> !#[trigger] fits(j),
                None => forall|j: int| 0 <= j < i ==> !#[trigger] fits(j),
            },
        decreases receipts.len() - i,
    {
        let receipt = &receipts[i];
        let holder = match holder_id {
            Some(id) => same_text(receipt.holder_id.as_str(), id.as_str()),
            None => true,
        };
        let hit = receipt.state == NamedLeaseReceiptState::Pending && same_text(
            receipt.provider_origin.as_str(),
            project.provider_origin.as_str(),
        ) && same_text(receipt.project_id.as_str(), project.project_id.as_str()) && same_text(
            receipt.resource_key.as_str(),
            resource_key,
        ) && holder;
        assert(hit == fits(i as int));
        if hit {
            match found {
                Some(k) => {
                    assert(fits(k as int) && fits(i as int));
                    return Err(NamedLeaseError::ManyPending);
                },
                None => {
                    found = Some(i);
                },
            }
        }
        i += 1;
    }
    Ok(found)
}

/// What an acquisition sends: a receipt that is kept, at its place, until there is an answer.
#[derive(Debug, Clone, PartialEq, Eq)]
pub struct Acquisition {
    pub path: String,
    pub receipt: NamedLeaseReceipt,
    /// The receipt is new and is to be written first.
    pub fresh: bool,
}

/// The receipt of a new request.
pub open spec fn new_receipt(
    project: NamedLeaseProjectView,
    resource_key: Seq<char>,
    holder_id: Seq<char>,
    ttl: u64,
    request_id: Seq<char>,
    secret: Seq<char>,
) -> NamedLeaseReceiptView {
    NamedLeaseReceiptView {
        version: 1,
        state: NamedLeaseReceiptState::Pending,
        provider_origin: project.provider_origin,
        project_id: project.project_id,
        request_id,
        resource_key,
        holder_id,
        holder_secret: secret,
        requested_ttl_seconds: ttl,
        lease: None,
        pending_mutation: None,
    }
}

/// The time to live that is asked for.
pub open spec fn wanted_ttl(policy: NamedLeasePolicy, ttl: Option<u64>) -> u64 {
    match ttl {
        Some(ttl) => ttl,
        None => policy.default_ttl_seconds,
    }
}

/// Whether a lease on a resource may be asked for, for a time.
pub open spec fn request_allowed(
    project: NamedLeaseProjectView,
    resource_key: Seq<char>,
    ttl: u64,
) -> bool {
    is_resource_key(resource_key) && allowed_ttl(project.policy, ttl)
}

/// Whether an error says why a lease may not be asked for.
pub open spec fn is_request_error(
    project: NamedLeaseProjectView,
    resource_key: Seq<char>,
    ttl: u64,
    e: NamedLeaseError,
) -> bool {
    if !is_resource_key(resource_key) {
        e == NamedLeaseError::ResourceKey
    } else {
        !allowed_ttl(project.policy, ttl) && e == NamedLeaseError::Ttl(
            project.policy.min_ttl_seconds,
            project.policy.max_ttl_seconds,
        )
    }
}

/// Prepares the request for a lease with given values for what chance would decide: an earlier
/// request for the same resource is sent again as it was, else a new one is made.
pub fn acquire_with(
    project: &NamedLeaseProject,
    directory: &str,
    resource_key: &str,
    holder_id: &Option<String>,
    ttl_seconds: Option<u64>,
    receipts: &Vec<NamedLeaseReceipt>,
    new_holder: &str,
    request_id: &str,
    secret: &str,
) -> (r: Result<Acquisition, NamedLeaseError>)
    ensures
        ({
            let ttl = wanted_ttl(project.policy, ttl_seconds);
            let holder = match *holder_id {
                Some(id) => id@,
                None => new_holder@,
            };
            let fits = |i: int|
                matches_request(
                    receipts@[i]@,
                    project@.provider_origin,
                    project@.project_id,
                    resource_key@,
                    text::opt_view(*holder_id),
                );
            match r {
                Ok(a) => {
                    &&& is_resource_key(resource_key@)
                    &&& allowed_ttl(project.policy, ttl)
                    &&& a.path@ == pending_path(
                        directory@,
                        a.receipt@.project_id,
                        a.receipt@.resource_key,
                        a.receipt@.holder_id,
                    )
                    &&& a.fresh ==> is_holder(holder) && a.receipt@ == new_receipt(
                        project@,
                        resource_key@,
                        holder,
                        ttl,
                        request_id@,
                        secret@,
                    ) && forall|i: int| 0 <= i < receipts.len() ==> !#[trigger] fits(i)
                    &&& !a.fresh ==> exists|i: int|
                        0 <= i < receipts.len() && #[trigger] fits(i) && a.receipt@
                            == receipts@[i]@ && forall|j: int|
                            0 <= j < receipts.len() && j != i ==> !#[trigger] fits(j)
                },
                Err(e) => if !request_allowed(project@, resource_key@, ttl) {
                    is_request_error(project@, resource_key@, ttl, e)
                } else if e is ManyPending {
                    exists|i: int, j: int|
                        0 <= i < j < receipts.len() && #[trigger] fits(i) && #[trigger] fits(j)
                } else {
                    e is Holder && !is_holder(holder) && forall|i: int|
                        0 <= i < receipts.len() ==> !#[trigger] fits(i)
                },
            }
        }),
{
    match validate_resource_key(resource_key) {
        Ok(()) => {},
        Err(e) => {
            return Err(e);
        },
    }
    let ttl: u64 = match ttl_seconds {
        Some(ttl) => ttl,
        None => project.policy.default_ttl_seconds,
    };
    match validate_ttl(&project.policy, ttl) {
        Ok(()) => {},
        Err(e) => {
            return Err(e);
        },
    }
    match find_pending_receipt(receipts, project, resource_key, holder_id) {
        Err(e) => Err(e),
        Ok(Some(i)) => {
            let receipt = receipts[i].copy();
            let path = pending_receipt_path(directory, &receipt);
            Ok(Acquisition { path, receipt, fresh: false })
        },
        Ok(None) => {
            let holder = match holder_id {
                Some(id) => id.clone(),
                None => new_holder.to_owned(),
            };
            match validate_holder_id(holder.as_str()) {
                Ok(()) => {},
                Err(e) => {
                    return Err(e);
                },
            }
            let receipt = NamedLeaseReceipt {
                version: 1,
                state: NamedLeaseReceiptState::Pending,
                provider_origin: project.provider_origin.clone(),
                project_id: project.project_id.clone(),
                request_id: request_id.to_owned(),
                resource_key: resource_key.to_owned(),
                holder_id: holder,
                holder_secret: secret.to_owned(),
                requested_ttl_seconds: ttl,
                lease: None,
                pending_mutation: None,
            };
            let path = pending_receipt_path(directory, &receipt);
            Ok(Acquisition { path, receipt, fresh: true })
        },
    }
}

/// A secret of 32 bytes, in Base64 for URLs.
pub open spec fn is_secret(text: Seq<char>) -> bool {
    exists|bytes: Seq<u8>| bytes.len() == 32 && #[trigger] digest::base64_url_text(bytes) == text
}

/// A new secret: 32 random bytes in Base64.
pub fn random_secret() -> (r: String)
    ensures
        is_secret(r@),
{
    let bytes = random_bytes();
    let r = base64_url(bytes.as_slice());
    assert(digest::base64_url_text(bytes@) == r@);
    r
}

/// A new name for a request.
pub fn new_request_id() -> (r: String)
    ensures
        random::is_tagged(r@, "req_"@, 32),
{
    tagged("req_")
}

/// A name that is made up for a holder is one that a holder can have.
proof fn lemma_new_holder(name: Seq<char>)
    requires
        random::is_tagged(name, "holder_"@, 32),
    ensures
        is_holder(name),
{
    reveal_strlit("holder_");
    let unique = name.skip("holder_"@.len() as int);
    assert(name =~= "holder_"@ + unique);
    assert forall|i: int| 0 <= i < name.len() implies {
        let n = #[trigger] name[i] as u32;
        0x30 <= n <= 0x39 || 0x5f <= n <= 0x7a
    } by {
        if i >= "holder_"@.len() {
            assert(name[i] == unique[i - "holder_"@.len()]);
            assert(digest::is_hex(name[i]));
        }
    }
    assert(vstd::utf8::is_ascii_chars(name));
    vstd::utf8::is_ascii_chars_encode_utf8(name);
}

/// Whether no receipt is of an earlier request for a resource.
pub open spec fn no_request(
    receipts: Seq<NamedLeaseReceipt>,
    project: NamedLeaseProjectView,
    resource_key: Seq<char>,
    holder_id: Option<Seq<char>>,
) -> bool {
    forall|i: int|
        0 <= i < receipts.len() ==> !matches_request(
            (#[trigger] receipts[i])@,
            project.provider_origin,
            project.project_id,
            resource_key,
            holder_id,
        )
}

/// Whether several receipts are of earlier requests for a resource.
pub open spec fn many_requests(
    receipts: Seq<NamedLeaseReceipt>,
    project: NamedLeaseProjectView,
    resource_key: Seq<char>,
    holder_id: Option<Seq<char>>,
) -> bool {
    exists|i: int, j: int|
        0 <= i < j < receipts.len() && matches_request(
            (#[trigger] receipts[i])@,
            project.provider_origin,
            project.project_id,
            resource_key,
            holder_id,
        ) && matches_request(
            (#[trigger] receipts[j])@,
            project.provider_origin,
            project.project_id,
            resource_key,
            holder_id,
        )
}

/// Prepares the request for a lease: an earlier request for the same resource is sent again as it
/// was, else a new one is made.
pub fn acquire(
    project: &NamedLeaseProject,
    directory: &str,
    resource_key: &str,
    holder_id: &Option<String>,
    ttl_seconds: Option<u64>,
    receipts: &Vec<NamedLeaseReceipt>,
) -> (r: Result<Acquisition, NamedLeaseError>)
    ensures
        match r {
            Ok(a) => {
                &&& is_resource_key(resource_key@)
                &&& allowed_ttl(project.policy, wanted_ttl(project.policy, ttl_seconds))
                &&& matches_request(
                    a.receipt@,
                    project@.provider_origin,
                    project@.project_id,
                    resource_key@,
                    text::opt_view(*holder_id),
                )
                &&& a.path@ == pending_path(
                    directory@,
                    project@.project_id,
                    resource_key@,
                    a.receipt@.holder_id,
                )
                &&& a.fresh ==> {
                    &&& no_request(receipts@, project@, resource_key@, text::opt_view(*holder_id))
                    &&& is_holder(a.receipt@.holder_id)
                    &&& holder_id is None ==> random::is_tagged(
                        a.receipt@.holder_id,
                        "holder_"@,
                        32,
                    )
                    &&& random::is_tagged(a.receipt@.request_id, "req_"@, 32)
                    &&& is_secret(a.receipt@.holder_secret)
                    &&& a.receipt@ == new_receipt(
                        project@,
                        resource_key@,
                        a.receipt@.holder_id,
                        wanted_ttl(project.policy, ttl_seconds),
                        a.receipt@.request_id,
                        a.receipt@.holder_secret,
                    )
                }
                &&& !a.fresh ==> receipt_views(receipts@).contains(a.receipt@) && !many_requests(
                    receipts@,
                    project@,
                    resource_key@,
                    text::opt_view(*holder_id),
                )
            },
            Err(e) => {
                let ttl = wanted_ttl(project.policy, ttl_seconds);
                if !request_allowed(project@, resource_key@, ttl) {
                    is_request_error(project@, resource_key@, ttl, e)
                } else if e is ManyPending {
                    many_requests(receipts@, project@, resource_key@, text::opt_view(*holder_id))
                } else {
                    e is Holder && holder_id is Some && !is_holder(holder_id->0@) && no_request(
                        receipts@,
                        project@,
                        resource_key@,
                        text::opt_view(*holder_id),
                    )
                }
            },
        },
{
    let new_holder = tagged("holder_");
    let request_id = new_request_id();
    let secret = random_secret();
    let r = acquire_with(
        project,
        directory,
        resource_key,
        holder_id,
        ttl_seconds,
        receipts,
        new_holder.as_str(),
        request_id.as_str(),
        secret.as_str(),
    );
    proof {
        lemma_new_holder(new_holder@);
        let fits = |i: int|
            matches_request(
                receipts@[i]@,
                project@.provider_origin,
                project@.project_id,
                resource_key@,
                text::opt_view(*holder_id),
            );
        if r is Ok {
            let a = r->Ok_0;
            if a.fresh {
                assert forall|i: int| 0 <= i < receipts.len() implies !matches_request(
                    (#[trigger] receipts@[i])@,
                    project@.provider_origin,
                    project@.project_id,
                    resource_key@,
                    text::opt_view(*holder_id),
                ) by {
                    assert(!fits(i));
                }
            } else {
                let i = choose|i: int|
                    0 <= i < receipts.len() && #[trigger] fits(i) && a.receipt@
                        == receipts@[i]@ && forall|j: int|
                        0 <= j < receipts.len() && j != i ==> !#[trigger] fits(j);
                assert(receipt_views(receipts@)[i] == a.receipt@);
                assert forall|j: int| 0 <= j < receipts.len() && j != i implies !matches_request(
                    (#[trigger] receipts@[j])@,
                    project@.provider_origin,
                    project@.project_id,
                    resource_key@,
                    text::opt_view(*holder_id),
                ) by {
                    assert(!fits(j));
                }
            }
        } else {
            if r->Err_0 is Holder {
                assert forall|i: int| 0 <= i < receipts.len() implies !matches_request(
                    (#[trigger] receipts@[i])@,
                    project@.provider_origin,
                    project@.project_id,
                    resource_key@,
                    text::opt_view(*holder_id),
                ) by {
                    assert(!fits(i));
                }
            }
        }
    }
    r
}

/// What came back from the provider.
#[derive(Debug, Clone, PartialEq, Eq)]
pub enum LeaseReply {
    /// A success, with this message.
    Accepted(NamedLeaseMutationResponse),
    /// Another status, with this message.
    Rejected(u16, NamedLeaseMutationResponse),
    /// No message that could be read.
    Lost(String),
}

/// The status that goes with an outcome.
pub open spec fn outcome_status(o: NamedLeaseOutcome) -> u16 {
    match o {
        NamedLeaseOutcome::Acquired => 201,
        NamedLeaseOutcome::Renewed | NamedLeaseOutcome::Released => 200,
        NamedLeaseOutcome::Held
        | NamedLeaseOutcome::LeaseExpired
        | NamedLeaseOutcome::RequestIdReused => 409,
        NamedLeaseOutcome::NotHolder => 403,
        NamedLeaseOutcome::NotFound => 404,
        NamedLeaseOutcome::InvalidResourceKey | NamedLeaseOutcome::InvalidTtl => 400,
    }
}

/// The status that goes with an outcome.
pub fn mutation_status(outcome: NamedLeaseOutcome) -> (r: u16)
    ensures
        r == outcome_status(outcome),
{
    match outcome {
        NamedLeaseOutcome::Acquired => 201,
        NamedLeaseOutcome::Renewed | NamedLeaseOutcome::Released => 200,
        NamedLeaseOutcome::Held
        | NamedLeaseOutcome::LeaseExpired
        | NamedLeaseOutcome::RequestIdReused => 409,
        NamedLeaseOutcome::NotHolder => 403,
        NamedLeaseOutcome::NotFound => 404,
        NamedLeaseOutcome::InvalidResourceKey | NamedLeaseOutcome::InvalidTtl => 400,
    }
}

/// What is said of a message that breaks the protocol.
pub open spec fn protocol_error(e: Option<ProtocolError>) -> Option<NamedLeaseError> {
    match e {
        Some(p) => Some(NamedLeaseError::Protocol(p)),
        None => None,
    }
}

/// What is to be done once the provider answered a request for a lease.
#[derive(Debug, Clone, PartialEq, Eq)]
pub enum AcquireStep {
    /// Write this receipt of the lease at this place, then remove the pending one.
    Activate(String, NamedLeaseReceipt, NamedLeaseMutationResponse),
    /// Remove the pending receipt, then fail.
    Drop(NamedLeaseError),
    /// Keep the pending receipt, and fail.
    Keep(NamedLeaseError),
}

/// Whether an answer settles that a request for a lease was refused: it is valid, it is about the
/// resource, and it does not grant the lease.
pub open spec fn refuses(
    reply: LeaseReply,
    project_id: Seq<char>,
    resource_key: Seq<char>,
) -> Option<NamedLeaseProviderOutcomeView> {
    match reply {
        LeaseReply::Accepted(response) => if protocol::resource_reply_error(
            response@,
            project_id,
            resource_key,
        ) is None && response.outcome != NamedLeaseOutcome::Acquired {
            Some(
                NamedLeaseProviderOutcomeView {
                    status: outcome_status(response.outcome),
                    response: response@,
                },
            )
        } else {
            None
        },
        LeaseReply::Rejected(status, response) => if protocol::resource_reply_error(
            response@,
            project_id,
            resource_key,
        ) is None {
            Some(NamedLeaseProviderOutcomeView { status, response: response@ })
        } else {
            None
        },
        LeaseReply::Lost(_) => None,
    }
}

/// Whether an answer grants the lease that was asked for.
pub open spec fn grants(
    reply: LeaseReply,
    project_id: Seq<char>,
    resource_key: Seq<char>,
) -> bool {
    match reply {
        LeaseReply::Accepted(response) => {
            &&& protocol::resource_reply_error(response@, project_id, resource_key) is None
            &&& response.outcome == NamedLeaseOutcome::Acquired
            &&& is_identifier(response@.lease->0.lease_id, "nls_"@)
        },
        _ => false,
    }
}

/// Decides what the answer to a request for a lease means. The pending receipt goes only when a
/// valid answer about this very resource settled the request.
pub fn acquire_reply(
    project: &NamedLeaseProject,
    directory: &str,
    resource_key: &str,
    receipt: NamedLeaseReceipt,
    reply: LeaseReply,
) -> (r: AcquireStep)
    ensures
        match r {
            AcquireStep::Activate(path, active, response) => {
                &&& grants(reply, project@.project_id, resource_key@)
                &&& reply matches LeaseReply::Accepted(given)
                &&& response@ == given@
                &&& active@ == (NamedLeaseReceiptView {
                    state: NamedLeaseReceiptState::Active,
                    lease: given@.lease,
                    ..receipt@
                })
                &&& path@ == active_path(
                    directory@,
                    given@.lease->0.lease_id,
                    receipt@.holder_id,
                )
            },
            AcquireStep::Drop(e) => {
                &&& e matches NamedLeaseError::Outcome(outcome)
                &&& refuses(reply, project@.project_id, resource_key@) == Some(outcome@)
            },
            AcquireStep::Keep(e) => {
                &&& !grants(reply, project@.project_id, resource_key@)
                &&& refuses(reply, project@.project_id, resource_key@) is None
                &&& match reply {
                    LeaseReply::Lost(message) => e == NamedLeaseError::Transport(message),
                    LeaseReply::Rejected(_, given) => Some(e) == protocol_error(
                        protocol::resource_reply_error(given@, project@.project_id, resource_key@),
                    ),
                    LeaseReply::Accepted(given) => match protocol::resource_reply_error(
                        given@,
                        project@.project_id,
                        resource_key@,
                    ) {
                        Some(p) => e == NamedLeaseError::Protocol(p),
                        None => e == NamedLeaseError::Identifier(IdentifierKind::Lease),
                    },
                }
            },
        },
{
    match reply {
        LeaseReply::Lost(message) => AcquireStep::Keep(NamedLeaseError::Transport(message)),
        LeaseReply::Rejected(status, response) => match response.validate_for_resource(
            project.project_id.as_str(),
            resource_key,
        ) {
            Ok(()) => AcquireStep::Drop(
                NamedLeaseError::Outcome(NamedLeaseProviderOutcome { status, response }),
            ),
            Err(e) => AcquireStep::Keep(NamedLeaseError::Protocol(e)),
        },
        LeaseReply::Accepted(response) => {
            match response.validate_for_resource(project.project_id.as_str(), resource_key) {
                Ok(()) => {},
                Err(e) => {
                    return AcquireStep::Keep(NamedLeaseError::Protocol(e));
                },
            }
            if response.outcome != NamedLeaseOutcome::Acquired {
                let status = mutation_status(response.outcome);
                return AcquireStep::Drop(
                    NamedLeaseError::Outcome(NamedLeaseProviderOutcome { status, response }),
                );
            }
            let lease = match &response.lease {
                Some(lease) => lease.copy(),
                None => {
                    return AcquireStep::Keep(NamedLeaseError::MissingLease);
                },
            };
            match validate_identifier(lease.lease_id.as_str(), IdentifierKind::Lease) {
                Ok(()) => {},
                Err(e) => {
                    return AcquireStep::Keep(e);
                },
            }
            let path = active_receipt_path(
                directory,
                lease.lease_id.as_str(),
                receipt.holder_id.as_str(),
            );
            let active = NamedLeaseReceipt {
                version: receipt.version,
                state: NamedLeaseReceiptState::Active,
                provider_origin: receipt.provider_origin,
                project_id: receipt.project_id,
                request_id: receipt.request_id,
                resource_key: receipt.resource_key,
                holder_id: receipt.holder_id,
                holder_secret: receipt.holder_secret,
                requested_ttl_seconds: receipt.requested_ttl_seconds,
                lease: Some(lease),
                pending_mutation: receipt.pending_mutation,
            };
            AcquireStep::Activate(path, active, response)
        },
    }
}

/// What is done with a lease that is held.
#[derive(Debug, Clone, Copy, PartialEq, Eq, Structural)]
pub enum LeaseOperation {
    Renew,
    Release,
}

/// How an operation is written.
pub open spec fn operation_text(o: LeaseOperation) -> Seq<char> {
    match o {
        LeaseOperation::Renew => "renew"@,
        LeaseOperation::Release => "release"@,
    }
}

impl LeaseOperation {
    /// How the operation is written.
    pub fn as_str(self) -> (r: &'static str)
        ensures
            r@ == operation_text(self),
    {
        match self {
            LeaseOperation::Renew => "renew",
            LeaseOperation::Release => "release",
        }
    }
}

/// Whether a receipt is that of the lease and of the holder.
pub open spec fn binds(
    receipt: NamedLeaseReceiptView,
    project: NamedLeaseProjectView,
    lease_id: Seq<char>,
    holder_id: Seq<char>,
) -> bool {
    &&& receipt.lease is Some
    &&& receipt.version == 1
    &&& receipt.state == NamedLeaseReceiptState::Active
    &&& receipt.provider_origin == project.provider_origin
    &&& receipt.project_id == project.project_id
    &&& receipt.holder_id == holder_id
    &&& protocol::id_lease_error(receipt.lease->0, project.project_id, lease_id) is None
}

/// Whether the fields of a receipt with a lease are those of the lease and of the holder.
pub open spec fn fields_bind(
    receipt: NamedLeaseReceiptView,
    project: NamedLeaseProjectView,
    lease_id: Seq<char>,
    holder_id: Seq<char>,
) -> bool {
    &&& receipt.version == 1
    &&& receipt.state == NamedLeaseReceiptState::Active
    &&& receipt.provider_origin == project.provider_origin
    &&& receipt.project_id == project.project_id
    &&& receipt.holder_id == holder_id
    &&& receipt.lease->0.lease_id == lease_id
}

/// Whether an error says why a receipt is not that of the lease and of the holder.
pub open spec fn is_binding_error(
    receipt: NamedLeaseReceiptView,
    project: NamedLeaseProjectView,
    lease_id: Seq<char>,
    holder_id: Seq<char>,
    e: NamedLeaseError,
) -> bool {
    if receipt.lease is None {
        e == NamedLeaseError::ReceiptWithoutLease
    } else if !fields_bind(receipt, project, lease_id, holder_id) {
        e == NamedLeaseError::ReceiptMismatch
    } else {
        e matches NamedLeaseError::Protocol(inner) && protocol::id_lease_error(
            receipt.lease->0,
            project.project_id,
            lease_id,
        ) == Some(inner)
    }
}

/// Refuses a receipt that is not that of the lease and of the holder.
pub fn validate_receipt_binding(
    receipt: &NamedLeaseReceipt,
    project: &NamedLeaseProject,
    lease_id: &str,
    holder_id: &str,
) -> (r: Result<(), NamedLeaseError>)
    ensures
        match r {
            Ok(()) => binds(receipt@, project@, lease_id@, holder_id@),
            Err(e) => is_binding_error(receipt@, project@, lease_id@, holder_id@, e),
        },
{
    match &receipt.lease {
        None => Err(NamedLeaseError::ReceiptWithoutLease),
        Some(lease) => {
            if receipt.version != 1 || receipt.state != NamedLeaseReceiptState::Active
                || !same_text(
                receipt.provider_origin.as_str(),
                project.provider_origin.as_str(),
            ) || !same_text(receipt.project_id.as_str(), project.project_id.as_str())
                || !same_text(receipt.holder_id.as_str(), holder_id) || !same_text(
                lease.lease_id.as_str(),
                lease_id,
            ) {
                return Err(NamedLeaseError::ReceiptMismatch);
            }
            match lease.validate_for_lease(project.project_id.as_str(), lease_id) {
                Ok(()) => Ok(()),
                Err(e) => Err(NamedLeaseError::Protocol(e)),
            }
        },
    }
}

/// What a change of a lease sends: the receipt, to be written with the request in it, the URL,
/// and the time to live where there is one.
#[derive(Debug, Clone, PartialEq, Eq)]
pub struct Mutation {
    pub receipt: NamedLeaseReceipt,
    pub url: String,
    pub request_id: String,
    pub ttl_seconds: Option<u64>,
}

/// What a lease is asked for with.
pub open spec fn acquire_request(receipt: NamedLeaseReceiptView) -> JsonView {
    JsonView::Object(
        seq![
            ("request_id"@, JsonView::Text(receipt.request_id)),
            ("resource_key"@, JsonView::Text(receipt.resource_key)),
            ("holder_id"@, JsonView::Text(receipt.holder_id)),
            ("holder_secret"@, JsonView::Text(receipt.holder_secret)),
            (
                "ttl_seconds"@,
                JsonView::Number(text::decimal(receipt.requested_ttl_seconds as nat)),
            ),
        ],
    )
}

/// Writes what a lease is asked for with.
pub fn acquire_body(receipt: &NamedLeaseReceipt) -> (r: Json)
    ensures
        r@ == acquire_request(receipt@),
{
    let fields = vec![
        text_pair("request_id", receipt.request_id.as_str()),
        text_pair("resource_key", receipt.resource_key.as_str()),
        text_pair("holder_id", receipt.holder_id.as_str()),
        text_pair("holder_secret", receipt.holder_secret.as_str()),
        number_pair("ttl_seconds", receipt.requested_ttl_seconds),
    ];
    assert(json::field_views(fields@) =~= acquire_request(receipt@)->Object_0);
    make_object(fields)
}

/// What a change of a lease is asked for with.
pub open spec fn mutation_request(
    request_id: Seq<char>,
    holder_secret: Seq<char>,
    ttl_seconds: Option<u64>,
) -> JsonView {
    let fields = seq![
        ("request_id"@, JsonView::Text(request_id)),
        ("holder_secret"@, JsonView::Text(holder_secret)),
    ];
    JsonView::Object(
        match ttl_seconds {
            Some(ttl) => fields.push(
                ("ttl_seconds"@, JsonView::Number(text::decimal(ttl as nat))),
            ),
            None => fields,
        },
    )
}

/// Writes what a change of a lease is asked for with.
pub fn mutation_body(mutation: &Mutation) -> (r: Json)
    ensures
        r@ == mutation_request(
            mutation.request_id@,
            mutation.receipt.holder_secret@,
            mutation.ttl_seconds,
        ),
{
    let mut fields = vec![
        text_pair("request_id", mutation.request_id.as_str()),
        text_pair("holder_secret", mutation.receipt.holder_secret.as_str()),
    ];
    match mutation.ttl_seconds {
        Some(ttl) => {
            fields.push(number_pair("ttl_seconds", ttl));
        },
        None => {},
    }
    assert(json::field_views(fields@) =~= mutation_request(
        mutation.request_id@,
        mutation.receipt.holder_secret@,
        mutation.ttl_seconds,
    )->Object_0);
    make_object(fields)
}

/// Checks what can be checked of a change before its receipt is looked up.
pub fn check_mutation(
    project: &NamedLeaseProject,
    lease_id: &str,
    holder_id: &str,
    operation: LeaseOperation,
    ttl_seconds: Option<u64>,
) -> (r: Result<(), NamedLeaseError>)
    ensures
        match r {
            Ok(()) => mutation_allowed(project@, lease_id@, holder_id@, operation, ttl_seconds),
            Err(e) => is_mutation_error(
                project@,
                lease_id@,
                holder_id@,
                operation,
                ttl_seconds,
                e,
            ),
        },
{
    match validate_holder_id(holder_id) {
        Ok(()) => {},
        Err(e) => {
            return Err(e);
        },
    }
    match validate_identifier(lease_id, IdentifierKind::Lease) {
        Ok(()) => {},
        Err(e) => {
            return Err(e);
        },
    }
    if operation == LeaseOperation::Renew {
        let ttl: u64 = match ttl_seconds {
            Some(ttl) => ttl,
            None => project.policy.default_ttl_seconds,
        };
        return validate_ttl(&project.policy, ttl);
    }
    Ok(())
}

/// A change that may be asked for.
pub open spec fn mutation_allowed(
    project: NamedLeaseProjectView,
    lease_id: Seq<char>,
    holder_id: Seq<char>,
    operation: LeaseOperation,
    ttl_seconds: Option<u64>,
) -> bool {
    &&& is_holder(holder_id)
    &&& is_identifier(lease_id, "nls_"@)
    &&& operation == LeaseOperation::Renew ==> allowed_ttl(
        project.policy,
        wanted_ttl(project.policy, ttl_seconds),
    )
}

/// Whether an error says why a change may not be asked for.
pub open spec fn is_mutation_error(
    project: NamedLeaseProjectView,
    lease_id: Seq<char>,
    holder_id: Seq<char>,
    operation: LeaseOperation,
    ttl_seconds: Option<u64>,
    e: NamedLeaseError,
) -> bool {
    if !is_holder(holder_id) {
        e == NamedLeaseError::Holder
    } else if !is_identifier(lease_id, "nls_"@) {
        e == NamedLeaseError::Identifier(IdentifierKind::Lease)
    } else {
        operation == LeaseOperation::Renew && !allowed_ttl(
            project.policy,
            wanted_ttl(project.policy, ttl_seconds),
        ) && e == NamedLeaseError::Ttl(
            project.policy.min_ttl_seconds,
            project.policy.max_ttl_seconds,
        )
    }
}

/// Whether an error says why a change of a lease cannot be prepared: it may not be asked for, or
/// its receipt is missing or another one, or another change waits for its answer.
pub open spec fn is_change_error(
    project: NamedLeaseProjectView,
    lease_id: Seq<char>,
    holder_id: Seq<char>,
    operation: LeaseOperation,
    ttl_seconds: Option<u64>,
    receipt: Option<NamedLeaseReceiptView>,
    e: NamedLeaseError,
) -> bool {
    if !mutation_allowed(project, lease_id, holder_id, operation, ttl_seconds) {
        is_mutation_error(project, lease_id, holder_id, operation, ttl_seconds, e)
    } else {
        match receipt {
            None => e == NamedLeaseError::NoReceipt,
            Some(kept) => if !binds(kept, project, lease_id, holder_id) {
                is_binding_error(kept, project, lease_id, holder_id, e)
            } else {
                e == NamedLeaseError::OtherMutation && sent_mutation(
                    kept.pending_mutation,
                    operation_text(operation),
                    ttl_seconds,
                    Seq::empty(),
                ) is None
            },
        }
    }
}

/// The view of a receipt that may be missing.
pub open spec fn kept_receipt(receipt: Option<NamedLeaseReceipt>) -> Option<NamedLeaseReceiptView> {
    match receipt {
        Some(receipt) => Some(receipt@),
        None => None,
    }
}

/// The request that is sent: the one that was not answered yet, if it is the same, else a new one.
pub open spec fn sent_mutation(
    pending: Option<PendingMutationView>,
    operation: Seq<char>,
    ttl_seconds: Option<u64>,
    new_request_id: Seq<char>,
) -> Option<PendingMutationView> {
    match pending {
        Some(earlier) => if earlier.operation == operation && earlier.ttl_seconds == ttl_seconds {
            Some(earlier)
        } else {
            None
        },
        None => Some(
            PendingMutationView { operation, request_id: new_request_id, ttl_seconds },
        ),
    }
}

fn same_ttl(a: Option<u64>, b: Option<u64>) -> (r: bool)
    ensures
        r == (a == b),
{
    match (a, b) {
        (Some(x), Some(y)) => x == y,
        (None, None) => true,
        _ => false,
    }
}

/// Prepares a change of a lease that is held, with a given name for a new request. A request that
/// was not answered yet is sent again as it was; another one must wait for its answer.
pub fn mutate_active_receipt(
    project: &NamedLeaseProject,
    lease_id: &str,
    holder_id: &str,
    operation: LeaseOperation,
    ttl_seconds: Option<u64>,
    receipt: Option<NamedLeaseReceipt>,
    new_request_id: &str,
) -> (r: Result<Mutation, NamedLeaseError>)
    ensures
        match r {
            Ok(m) => {
                let sent = sent_mutation(
                    receipt->0@.pending_mutation,
                    operation_text(operation),
                    ttl_seconds,
                    new_request_id@,
                );
                &&& mutation_allowed(project@, lease_id@, holder_id@, operation, ttl_seconds)
                &&& receipt is Some
                &&& binds(receipt->0@, project@, lease_id@, holder_id@)
                &&& sent is Some
                &&& m.receipt@ == (NamedLeaseReceiptView { pending_mutation: sent, ..receipt->0@ })
                &&& m.request_id@ == sent->0.request_id
                &&& m.url@ == project@.endpoint + "/"@ + address::encoded_text(lease_id@) + "/"@
                    + operation_text(operation)
                &&& m.ttl_seconds == if operation == LeaseOperation::Renew {
                    Some(wanted_ttl(project.policy, ttl_seconds))
                } else {
                    None
                }
            },
            Err(e) => is_change_error(
                project@,
                lease_id@,
                holder_id@,
                operation,
                ttl_seconds,
                kept_receipt(receipt),
                e,
            ),
        },
{
    match check_mutation(project, lease_id, holder_id, operation, ttl_seconds) {
        Ok(()) => {},
        Err(e) => {
            return Err(e);
        },
    }
    let mut kept = match receipt {
        Some(receipt) => receipt,
        None => {
            return Err(NamedLeaseError::NoReceipt);
        },
    };
    match validate_receipt_binding(&kept, project, lease_id, holder_id) {
        Ok(()) => {},
        Err(e) => {
            return Err(e);
        },
    }
    let request = match &kept.pending_mutation {
        Some(earlier) => {
            if same_text(earlier.operation.as_str(), operation.as_str()) && same_ttl(
                earlier.ttl_seconds,
                ttl_seconds,
            ) {
                earlier.copy()
            } else {
                return Err(NamedLeaseError::OtherMutation);
            }
        },
        None => PendingMutation {
            operation: operation.as_str().to_owned(),
            request_id: new_request_id.to_owned(),
            ttl_seconds,
        },
    };
    let request_id = request.request_id.clone();
    kept.pending_mutation = Some(request);
    let id = encode_text(lease_id);
    let url = cat5(project.endpoint.as_str(), "/", id.as_str(), "/", operation.as_str());
    let ttl = match operation {
        LeaseOperation::Renew => match ttl_seconds {
            Some(ttl) => Some(ttl),
            None => Some(project.policy.default_ttl_seconds),
        },
        LeaseOperation::Release => None,
    };
    Ok(Mutation { receipt: kept, url, request_id, ttl_seconds: ttl })
}

/// Prepares the renewal of a lease.
pub fn renew(
    project: &NamedLeaseProject,
    lease_id: &str,
    holder_id: &str,
    ttl_seconds: Option<u64>,
    receipt: Option<NamedLeaseReceipt>,
) -> (r: Result<Mutation, NamedLeaseError>)
    ensures
        match r {
            Ok(m) => {
                &&& mutation_allowed(
                    project@,
                    lease_id@,
                    holder_id@,
                    LeaseOperation::Renew,
                    ttl_seconds,
                )
                &&& receipt is Some
                &&& binds(receipt->0@, project@, lease_id@, holder_id@)
                &&& m.url@ == project@.endpoint + "/"@ + address::encoded_text(lease_id@) + "/renew"@
                &&& m.ttl_seconds == Some(wanted_ttl(project.policy, ttl_seconds))
                &&& m.receipt@.pending_mutation is Some
                &&& m.request_id@ == m.receipt@.pending_mutation->0.request_id
                &&& m.receipt@ == (NamedLeaseReceiptView {
                    pending_mutation: sent_mutation(
                        receipt->0@.pending_mutation,
                        "renew"@,
                        ttl_seconds,
                        m.request_id@,
                    ),
                    ..receipt->0@
                })
                &&& receipt->0@.pending_mutation is None ==> random::is_tagged(
                    m.request_id@,
                    "req_"@,
                    32,
                )
            },
            Err(e) => is_change_error(
                project@,
                lease_id@,
                holder_id@,
                LeaseOperation::Renew,
                ttl_seconds,
                kept_receipt(receipt),
                e,
            ),
        },
{
    let id = new_request_id();
    let r = mutate_active_receipt(
        project,
        lease_id,
        holder_id,
        LeaseOperation::Renew,
        ttl_seconds,
        receipt,
        id.as_str(),
    );
    proof {
        reveal_strlit("/");
        reveal_strlit("renew");
        reveal_strlit("/renew");
        let front = project@.endpoint + "/"@ + address::encoded_text(lease_id@);
        assert("/renew"@ =~= "/"@ + "renew"@);
        assert(front + "/"@ + "renew"@ =~= front + "/renew"@);
    }
    r
}

/// Prepares the release of a lease.
pub fn release(
    project: &NamedLeaseProject,
    lease_id: &str,
    holder_id: &str,
    receipt: Option<NamedLeaseReceipt>,
) -> (r: Result<Mutation, NamedLeaseError>)
    ensures
        match r {
            Ok(m) => {
                &&& mutation_allowed(
                    project@,
                    lease_id@,
                    holder_id@,
                    LeaseOperation::Release,
                    None,
                )
                &&& receipt is Some
                &&& binds(receipt->0@, project@, lease_id@, holder_id@)
                &&& m.url@ == project@.endpoint + "/"@ + address::encoded_text(lease_id@) + "/release"@
                &&& m.ttl_seconds is None
                &&& m.receipt@.pending_mutation is Some
                &&& m.request_id@ == m.receipt@.pending_mutation->0.request_id
                &&& m.receipt@ == (NamedLeaseReceiptView {
                    pending_mutation: sent_mutation(
                        receipt->0@.pending_mutation,
                        "release"@,
                        None,
                        m.request_id@,
                    ),
                    ..receipt->0@
                })
                &&& receipt->0@.pending_mutation is None ==> random::is_tagged(
                    m.request_id@,
                    "req_"@,
                    32,
                )
            },
            Err(e) => is_change_error(
                project@,
                lease_id@,
                holder_id@,
                LeaseOperation::Release,
                None,
                kept_receipt(receipt),
                e,
            ),
        },
{
    let id = new_request_id();
    let r = mutate_active_receipt(
        project,
        lease_id,
        holder_id,
        LeaseOperation::Release,
        None,
        receipt,
        id.as_str(),
    );
    proof {
        reveal_strlit("/");
        reveal_strlit("release");
        reveal_strlit("/release");
        let front = project@.endpoint + "/"@ + address::encoded_text(lease_id@);
        assert("/release"@ =~= "/"@ + "release"@);
        assert(front + "/"@ + "release"@ =~= front + "/release"@);
    }
    r
}

/// What is to be done once the provider answered a request about a lease that is held.
#[derive(Debug, Clone, PartialEq, Eq)]
pub enum MutationStep {
    /// Write this receipt.
    Save(NamedLeaseReceipt, NamedLeaseMutationResponse),
    /// Remove the receipt: the lease is released.
    Released(NamedLeaseMutationResponse),
    /// Remove the receipt, then fail.
    Drop(NamedLeaseError),
    /// Keep the receipt, and fail.
    Keep(NamedLeaseError),
}

/// Whether an answer that is no success settles that the lease is lost.
pub open spec fn loses(o: NamedLeaseOutcome) -> bool {
    o == NamedLeaseOutcome::LeaseExpired || o == NamedLeaseOutcome::NotHolder
}

/// Whether an answer settles that a lease is no longer held by this receipt: it is valid and
/// about this very lease, and it says so.
pub open spec fn ends_lease(
    reply: LeaseReply,
    project_id: Seq<char>,
    lease_id: Seq<char>,
) -> bool {
    match reply {
        LeaseReply::Accepted(response) => protocol::id_reply_error(response@, project_id, lease_id) is None
            && response.outcome != NamedLeaseOutcome::Renewed,
        LeaseReply::Rejected(_, response) => protocol::id_reply_error(
            response@,
            project_id,
            lease_id,
        ) is None && loses(response.outcome),
        LeaseReply::Lost(_) => false,
    }
}

/// Decides what the answer to a request about a lease means. The receipt goes only when a valid
/// answer about this very lease says that it no longer holds.
pub fn mutation_reply(
    project: &NamedLeaseProject,
    lease_id: &str,
    receipt: NamedLeaseReceipt,
    reply: LeaseReply,
) -> (r: MutationStep)
    ensures
        match r {
            MutationStep::Save(kept, response) => {
                &&& reply matches LeaseReply::Accepted(given)
                &&& protocol::id_reply_error(given@, project@.project_id, lease_id@) is None
                &&& given.outcome == NamedLeaseOutcome::Renewed
                &&& response@ == given@
                &&& kept@ == (NamedLeaseReceiptView {
                    lease: given@.lease,
                    pending_mutation: None,
                    ..receipt@
                })
            },
            MutationStep::Released(response) => {
                &&& ends_lease(reply, project@.project_id, lease_id@)
                &&& reply matches LeaseReply::Accepted(given)
                &&& given.outcome == NamedLeaseOutcome::Released
                &&& response@ == given@
            },
            MutationStep::Drop(e) => {
                &&& ends_lease(reply, project@.project_id, lease_id@)
                &&& e matches NamedLeaseError::Outcome(outcome)
                &&& match reply {
                    LeaseReply::Accepted(given) => outcome@ == (NamedLeaseProviderOutcomeView {
                        status: outcome_status(given.outcome),
                        response: given@,
                    }) && given.outcome != NamedLeaseOutcome::Released,
                    LeaseReply::Rejected(status, given) => outcome@ == (
                    NamedLeaseProviderOutcomeView { status, response: given@ }),
                    LeaseReply::Lost(_) => false,
                }
            },
            MutationStep::Keep(e) => {
                &&& !ends_lease(reply, project@.project_id, lease_id@)
                &&& match reply {
                    LeaseReply::Lost(message) => e == NamedLeaseError::Transport(message),
                    LeaseReply::Accepted(given) => Some(e) == protocol_error(
                        protocol::id_reply_error(given@, project@.project_id, lease_id@),
                    ),
                    LeaseReply::Rejected(status, given) => match protocol::id_reply_error(
                        given@,
                        project@.project_id,
                        lease_id@,
                    ) {
                        Some(p) => e == NamedLeaseError::Protocol(p),
                        None => e matches NamedLeaseError::Outcome(outcome) && outcome@ == (
                        NamedLeaseProviderOutcomeView { status, response: given@ }),
                    },
                }
            },
        },
{
    match reply {
        LeaseReply::Lost(message) => MutationStep::Keep(NamedLeaseError::Transport(message)),
        LeaseReply::Rejected(status, response) => match response.validate_for_lease(
            project.project_id.as_str(),
            lease_id,
        ) {
            Err(e) => MutationStep::Keep(NamedLeaseError::Protocol(e)),
            Ok(()) => {
                let lost = response.outcome == NamedLeaseOutcome::LeaseExpired || response.outcome
                    == NamedLeaseOutcome::NotHolder;
                let e = NamedLeaseError::Outcome(NamedLeaseProviderOutcome { status, response });
                if lost {
                    MutationStep::Drop(e)
                } else {
                    MutationStep::Keep(e)
                }
            },
        },
        LeaseReply::Accepted(response) => {
            match response.validate_for_lease(project.project_id.as_str(), lease_id) {
                Ok(()) => {},
                Err(e) => {
                    return MutationStep::Keep(NamedLeaseError::Protocol(e));
                },
            }
            match response.outcome {
                NamedLeaseOutcome::Renewed => {
                    let mut kept = receipt;
                    let given = response.copy();
                    kept.lease = given.lease;
                    kept.pending_mutation = None;
                    MutationStep::Save(kept, response)
                },
                NamedLeaseOutcome::Released => MutationStep::Released(response),
                _ => {
                    let status = mutation_status(response.outcome);
                    MutationStep::Drop(
                        NamedLeaseError::Outcome(NamedLeaseProviderOutcome { status, response }),
                    )
                },
            }
        },
    }
}

/// No answer, or one that cannot be read, never costs a receipt: the request can be sent again.
pub proof fn law_lost_reply_keeps_receipt(
    message: String,
    project_id: Seq<char>,
    key: Seq<char>,
    lease_id: Seq<char>,
)
    ensures
        refuses(LeaseReply::Lost(message), project_id, key) is None,
        !grants(LeaseReply::Lost(message), project_id, key),
        !ends_lease(LeaseReply::Lost(message), project_id, lease_id),
{
}

/// An answer about another project or another lease never costs a receipt.
pub proof fn law_foreign_reply_keeps_receipt(
    status: u16,
    response: NamedLeaseMutationResponse,
    project_id: Seq<char>,
    lease_id: Seq<char>,
)
    requires
        response@.lease is Some,
        response@.lease->0.project_id != project_id || response@.lease->0.lease_id != lease_id,
    ensures
        !ends_lease(LeaseReply::Accepted(response), project_id, lease_id),
        !ends_lease(LeaseReply::Rejected(status, response), project_id, lease_id),
{
}

/// The URL that asks for the lease on a resource.
pub fn get(project: &NamedLeaseProject, resource_key: &str) -> (r: Result<String, NamedLeaseError>)
    ensures
        match r {
            Ok(url) => is_resource_key(resource_key@) && url@ == project@.endpoint
                + "?resource_key="@ + address::encoded_text(resource_key@),
            Err(e) => !is_resource_key(resource_key@) && e is ResourceKey,
        },
{
    match validate_resource_key(resource_key) {
        Ok(()) => {},
        Err(e) => {
            return Err(e);
        },
    }
    let key = encode_text(resource_key);
    Ok(cat3(project.endpoint.as_str(), "?resource_key=", key.as_str()))
}

/// Accepts the lease on a resource that the provider gave.
pub fn get_reply(project: &NamedLeaseProject, resource_key: &str, lease: Option<NamedLease>) -> (r:
    Result<NamedLease, NamedLeaseError>)
    ensures
        match r {
            Ok(found) => lease == Some(found) && protocol::resource_lease_error(
                found@,
                project@.project_id,
                resource_key@,
            ) is None,
            Err(NamedLeaseError::MissingLease) => lease is None,
            Err(NamedLeaseError::Protocol(e)) => lease is Some && protocol::resource_lease_error(
                lease->0@,
                project@.project_id,
                resource_key@,
            ) == Some(e),
            Err(_) => false,
        },
{
    match lease {
        None => Err(NamedLeaseError::MissingLease),
        Some(found) => match found.validate_for_resource(
            project.project_id.as_str(),
            resource_key,
        ) {
            Ok(()) => Ok(found),
            Err(e) => Err(NamedLeaseError::Protocol(e)),
        },
    }
}

/// Whether the provider said that nobody holds the resource.
pub fn is_unheld(error: &ProviderHttpError) -> (r: bool)
    ensures
        r == (error.status == 404 && json::text_field(error.body, "outcome"@) == Some("NOT_FOUND"@)),
{
    error.status == 404 && match error.body.text_at("outcome") {
        Some(text) => same_text(text, "NOT_FOUND"),
        None => false,
    }
}

/// The URL that asks for the leases below a prefix.
pub fn list(project: &NamedLeaseProject, prefix: &str) -> (r: Result<String, NamedLeaseError>)
    ensures
        match r {
            Ok(url) => is_resource_prefix(prefix@) && url@ == project@.endpoint + "?prefix="@
                + address::encoded_text(prefix@),
            Err(e) => is_prefix_error(prefix@, e),
        },
{
    match validate_resource_prefix(prefix) {
        Ok(()) => {},
        Err(e) => {
            return Err(e);
        },
    }
    let text = encode_text(prefix);
    Ok(cat3(project.endpoint.as_str(), "?prefix=", text.as_str()))
}

/// Whether every lease of a list is below a prefix.
pub open spec fn all_below(leases: Seq<NamedLeaseView>, prefix: Seq<char>) -> bool {
    forall|i: int| 0 <= i < leases.len() ==> prefix.is_prefix_of((#[trigger] leases[i]).resource_key)
}

/// Accepts the leases below a prefix that the provider gave.
pub fn list_reply(project: &NamedLeaseProject, prefix: &str, response: NamedLeaseListResponse) -> (r:
    Result<Vec<NamedLease>, NamedLeaseError>)
    ensures
        match r {
            Ok(leases) => leases@ == response.leases@ && protocol::lease_list_error(
                protocol::lease_views(leases@),
                project@.project_id,
                0,
            ) is None && all_below(protocol::lease_views(leases@), prefix@),
            Err(NamedLeaseError::Protocol(e)) => protocol::lease_list_error(
                protocol::lease_views(response.leases@),
                project@.project_id,
                0,
            ) == Some(e),
            Err(NamedLeaseError::OutsidePrefix) => protocol::lease_list_error(
                protocol::lease_views(response.leases@),
                project@.project_id,
                0,
            ) is None && !all_below(protocol::lease_views(response.leases@), prefix@),
            Err(_) => false,
        },
{
    match response.validate_for_project(project.project_id.as_str()) {
        Ok(()) => {},
        Err(e) => {
            return Err(NamedLeaseError::Protocol(e));
        },
    }
    let ghost all = protocol::lease_views(response.leases@);
    let mut i: usize = 0;
    while i < response.leases.len()
        invariant
            0 <= i <= response.leases.len(),
            all == protocol::lease_views(response.leases@),
            protocol::lease_list_error(all, project@.project_id, 0) is None,
            forall|j: int| 0 <= j < i ==> prefix@.is_prefix_of((#[trigger] all[j]).resource_key),
        decreases response.leases.len() - i,
    {
        assert(all[i as int] == response.leases@[i as int]@);
        if !has_prefix(response.leases[i].resource_key.as_str(), prefix) {
            assert(!prefix@.is_prefix_of(all[i as int].resource_key));
            return Err(NamedLeaseError::OutsidePrefix);
        }
        i += 1;
    }
    Ok(response.leases)
}

/// Whether the local clock says that the lease of a receipt is over. That is an observation: the
/// receipt stays.
pub fn receipt_is_locally_expired(receipt: &NamedLeaseReceipt, now: &Timestamp) -> (r: bool)
    ensures
        r == (receipt@.lease is Some && clock::not_after(receipt@.lease->0.expires_at, *now)),
{
    match &receipt.lease {
        Some(lease) => lease.expires_at.not_after(now),
        None => false,
    }
}

/// A request that was not answered is sent again as it was: its receipt is found by the next
/// attempt, whether the holder is named or not, and a change of a lease keeps its name.
pub proof fn law_retry_reuses_request(
    project: NamedLeaseProjectView,
    resource_key: Seq<char>,
    holder_id: Seq<char>,
    ttl: u64,
    request_id: Seq<char>,
    secret: Seq<char>,
    operation: Seq<char>,
    change_ttl: Option<u64>,
    other_id: Seq<char>,
)
    ensures
        ({
            let receipt = new_receipt(project, resource_key, holder_id, ttl, request_id, secret);
            &&& matches_request(
                receipt,
                project.provider_origin,
                project.project_id,
                resource_key,
                Some(holder_id),
            )
            &&& matches_request(
                receipt,
                project.provider_origin,
                project.project_id,
                resource_key,
                None,
            )
        }),
        ({
            let first = sent_mutation(None, operation, change_ttl, request_id);
            sent_mutation(first, operation, change_ttl, other_id) == first
        }),
{
}

} // verus!
