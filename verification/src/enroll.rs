//! How a device is enrolled with a provider.
use vstd::prelude::*;
use crate::json;
use crate::provider;
use crate::text;
use crate::text_map;
use crate::json::{Json, JsonView};
use crate::provider::{
    enrollment_token, require_endpoint, token_enrollment, Discovery, DiscoveryView, ProviderError,
};
use crate::text_map::lookup;

verus! {

/// What is done next.
#[derive(Debug, Clone, Copy, PartialEq, Eq, Structural)]
pub enum EnrollStage {
    /// Ask the provider to describe itself.
    Discover,
    /// Make a key.
    Key,
    /// Exchange the token.
    Exchange,
    /// Fetch the catalog with the token as it is.
    Fallback,
    /// Fetch the catalog with the token of the enrollment.
    Verify,
    /// Keep the login.
    Store,
    Finished,
}

/// The enrollment of a device.
#[derive(Debug)]
pub struct Enrollment {
    pub stage: EnrollStage,
    /// The token that was given.
    pub bootstrap: String,
    pub device_name: String,
    pub enroll_url: String,
    pub catalog_url: String,
    /// What the device is enrolled with.
    pub token: Option<String>,
    /// The document of the enrollment.
    pub document: Json,
    pub failure: Option<String>,
}

/// What an [`Enrollment`] holds.
#[verifier::ext_equal]
pub struct EnrollmentView {
    pub stage: EnrollStage,
    pub bootstrap: Seq<char>,
    pub device_name: Seq<char>,
    pub enroll_url: Seq<char>,
    pub catalog_url: Seq<char>,
    pub token: Option<Seq<char>>,
    pub document: JsonView,
    pub failure: Option<Seq<char>>,
}

impl View for Enrollment {
    type V = EnrollmentView;

    open spec fn view(&self) -> EnrollmentView {
        EnrollmentView {
            stage: self.stage,
            bootstrap: self.bootstrap@,
            device_name: self.device_name@,
            enroll_url: self.enroll_url@,
            catalog_url: self.catalog_url@,
            token: text::opt_view(self.token),
            document: self.document@,
            failure: text::opt_view(self.failure),
        }
    }
}

/// What is to be done.
#[derive(Debug, Clone, PartialEq, Eq)]
pub enum EnrollAction {
    /// Ask the provider to describe itself.
    Discover,
    /// Make a key for the device.
    Key,
    /// Exchange a token, at an address: first the address, then the token.
    Exchange(String, String),
    /// Fetch the catalog at an address with a token.
    Catalog(String, String),
    /// Keep the login that the document of the enrollment describes.
    Store,
    /// The device is enrolled.
    Return,
    /// The device is not enrolled, for this reason.
    Fail(String),
}

/// What an [`EnrollAction`] holds.
pub enum EnrollActionView {
    Discover,
    Key,
    Exchange(Seq<char>, Seq<char>),
    Catalog(Seq<char>, Seq<char>),
    Store,
    Return,
    Fail(Seq<char>),
}

impl View for EnrollAction {
    type V = EnrollActionView;

    open spec fn view(&self) -> EnrollActionView {
        match *self {
            EnrollAction::Discover => EnrollActionView::Discover,
            EnrollAction::Key => EnrollActionView::Key,
            EnrollAction::Exchange(a, b) => EnrollActionView::Exchange(a@, b@),
            EnrollAction::Catalog(a, b) => EnrollActionView::Catalog(a@, b@),
            EnrollAction::Store => EnrollActionView::Store,
            EnrollAction::Return => EnrollActionView::Return,
            EnrollAction::Fail(a) => EnrollActionView::Fail(a@),
        }
    }
}

/// What came of a step.
#[derive(Debug)]
pub enum EnrollEvent {
    Discovered(Discovery),
    /// The provider answered with this document.
    Replied(Json),
    /// What was asked for is done.
    Did,
    Failed(String),
}

/// What an [`EnrollEvent`] holds.
pub enum EnrollEventView {
    Discovered(DiscoveryView),
    Replied(Json),
    Did,
    Failed(Seq<char>),
}

impl View for EnrollEvent {
    type V = EnrollEventView;

    open spec fn view(&self) -> EnrollEventView {
        match *self {
            EnrollEvent::Discovered(d) => EnrollEventView::Discovered(d@),
            EnrollEvent::Replied(reply) => EnrollEventView::Replied(reply),
            EnrollEvent::Did => EnrollEventView::Did,
            EnrollEvent::Failed(reason) => EnrollEventView::Failed(reason@),
        }
    }
}

/// The enrollment of a device at its start.
pub open spec fn enroll_start(bootstrap: Seq<char>, device_name: Seq<char>) -> EnrollmentView {
    EnrollmentView {
        stage: EnrollStage::Discover,
        bootstrap,
        device_name,
        enroll_url: Seq::empty(),
        catalog_url: Seq::empty(),
        token: None,
        document: JsonView::Null,
        failure: None,
    }
}

/// What is to be done next.
pub open spec fn enroll_requested(s: EnrollmentView) -> EnrollActionView {
    match s.stage {
        EnrollStage::Discover => EnrollActionView::Discover,
        EnrollStage::Key => EnrollActionView::Key,
        EnrollStage::Exchange => EnrollActionView::Exchange(s.enroll_url, s.bootstrap),
        EnrollStage::Fallback => EnrollActionView::Catalog(s.catalog_url, s.bootstrap),
        EnrollStage::Verify => EnrollActionView::Catalog(
            s.catalog_url,
            match s.token {
                Some(token) => token,
                None => Seq::empty(),
            },
        ),
        EnrollStage::Store => EnrollActionView::Store,
        EnrollStage::Finished => match s.failure {
            Some(reason) => EnrollActionView::Fail(reason),
            None => EnrollActionView::Return,
        },
    }
}

/// What is said of an endpoint that the provider does not name.
pub open spec fn missing_endpoint(name: Seq<char>) -> Seq<char> {
    "provider discovery is missing "@ + name + " endpoint"@
}

/// What is missing in the description of a provider, where something is.
pub open spec fn description_error(d: DiscoveryView) -> Option<Seq<char>> {
    if text_map::text_at(d.endpoints, "enroll"@) is None {
        Some(missing_endpoint("enroll"@))
    } else if text_map::text_at(d.endpoints, "catalog"@) is None {
        Some(missing_endpoint("catalog"@))
    } else {
        None
    }
}

/// An endpoint, or nothing.
pub open spec fn endpoint_of(d: DiscoveryView, name: Seq<char>) -> Seq<char> {
    match text_map::text_at(d.endpoints, name) {
        Some(url) => url,
        None => Seq::empty(),
    }
}

/// An enrollment with a document and its token.
pub open spec fn enroll_tokened(
    s: EnrollmentView,
    document: JsonView,
    token: Option<Seq<char>>,
) -> EnrollmentView {
    match token {
        Some(_) => EnrollmentView { stage: EnrollStage::Verify, document, token, ..s },
        None => EnrollmentView {
            stage: EnrollStage::Finished,
            document,
            token,
            failure: Some(provider::provider_text(ProviderError::NoToken)),
            ..s
        },
    }
}

/// What holds after a step. Where the provider exchanges no token, the one that was given is used;
/// a login is kept only once the catalog was fetched with its token.
pub open spec fn enrolled_after(s: EnrollmentView, e: EnrollEventView) -> EnrollmentView {
    match (s.stage, e) {
        (EnrollStage::Finished, _) => s,
        (EnrollStage::Exchange, EnrollEventView::Failed(_)) => EnrollmentView {
            stage: EnrollStage::Fallback,
            ..s
        },
        (_, EnrollEventView::Failed(reason)) => EnrollmentView {
            stage: EnrollStage::Finished,
            failure: Some(reason),
            ..s
        },
        (EnrollStage::Discover, EnrollEventView::Discovered(d)) => EnrollmentView {
            stage: EnrollStage::Key,
            enroll_url: endpoint_of(d, "enroll"@),
            catalog_url: endpoint_of(d, "catalog"@),
            failure: description_error(d),
            ..s
        },
        (EnrollStage::Key, EnrollEventView::Did) => EnrollmentView {
            stage: if s.failure is Some {
                EnrollStage::Finished
            } else {
                EnrollStage::Exchange
            },
            ..s
        },
        (EnrollStage::Exchange, EnrollEventView::Replied(reply)) => enroll_tokened(
            s,
            reply@,
            json::text_field(reply, "token"@),
        ),
        (EnrollStage::Fallback, EnrollEventView::Replied(reply)) => enroll_tokened(
            s,
            provider::enrollment_by_token(s.device_name, reply, s.bootstrap),
            Some(s.bootstrap),
        ),
        (EnrollStage::Verify, EnrollEventView::Replied(_)) => EnrollmentView {
            stage: EnrollStage::Store,
            ..s
        },
        (EnrollStage::Store, EnrollEventView::Did) => EnrollmentView {
            stage: EnrollStage::Finished,
            ..s
        },
        _ => s,
    }
}

fn endpoint_at(d: &Discovery, name: &str) -> (r: String)
    ensures
        r@ == endpoint_of(d@, name@),
{
    match lookup(&d.endpoints, name) {
        Some(url) => url,
        None => {
            let none = String::new();
            assert(none@ =~= Seq::empty());
            none
        },
    }
}

fn missing_in(d: &Discovery) -> (r: Option<String>)
    ensures
        text::opt_view(r) == description_error(d@),
{
    match (require_endpoint(d, "enroll"), require_endpoint(d, "catalog")) {
        (Err(e), _) => Some(e.message()),
        (Ok(_), Err(e)) => Some(e.message()),
        (Ok(_), Ok(_)) => None,
    }
}

impl Enrollment {
    /// What is to be done next.
    pub fn request(&self) -> (r: EnrollAction)
        ensures
            r@ == enroll_requested(self@),
    {
        match self.stage {
            EnrollStage::Discover => EnrollAction::Discover,
            EnrollStage::Key => EnrollAction::Key,
            EnrollStage::Exchange => EnrollAction::Exchange(
                self.enroll_url.clone(),
                self.bootstrap.clone(),
            ),
            EnrollStage::Fallback => EnrollAction::Catalog(
                self.catalog_url.clone(),
                self.bootstrap.clone(),
            ),
            EnrollStage::Verify => {
                let token = match &self.token {
                    Some(token) => token.clone(),
                    None => {
                        let none = String::new();
                        assert(none@ =~= Seq::empty());
                        none
                    },
                };
                EnrollAction::Catalog(self.catalog_url.clone(), token)
            },
            EnrollStage::Store => EnrollAction::Store,
            EnrollStage::Finished => match &self.failure {
                Some(reason) => EnrollAction::Fail(reason.clone()),
                None => EnrollAction::Return,
            },
        }
    }

    fn tokened(&mut self, document: Json, token: Option<String>)
        ensures
            final(self)@ == enroll_tokened(old(self)@, document@, text::opt_view(token)),
    {
        if token.is_some() {
            self.stage = EnrollStage::Verify;
        } else {
            self.failure = Some(ProviderError::NoToken.message());
            self.stage = EnrollStage::Finished;
        }
        self.document = document;
        self.token = token;
    }

    /// Takes what came of the step that was asked for.
    pub fn advance(&mut self, event: EnrollEvent)
        ensures
            final(self)@ == enrolled_after(old(self)@, event@),
    {
        match event {
            EnrollEvent::Failed(reason) => {
                if self.stage == EnrollStage::Exchange {
                    self.stage = EnrollStage::Fallback;
                } else if self.stage != EnrollStage::Finished {
                    self.failure = Some(reason);
                    self.stage = EnrollStage::Finished;
                }
            },
            EnrollEvent::Discovered(d) => {
                if self.stage == EnrollStage::Discover {
                    self.enroll_url = endpoint_at(&d, "enroll");
                    self.catalog_url = endpoint_at(&d, "catalog");
                    self.failure = missing_in(&d);
                    self.stage = EnrollStage::Key;
                }
            },
            EnrollEvent::Replied(reply) => match self.stage {
                EnrollStage::Exchange => {
                    let token = match enrollment_token(&reply) {
                        Ok(token) => Some(token),
                        Err(_) => None,
                    };
                    self.tokened(reply, token);
                },
                EnrollStage::Fallback => {
                    let document = token_enrollment(
                        self.device_name.as_str(),
                        &reply,
                        self.bootstrap.as_str(),
                    );
                    let token = Some(self.bootstrap.clone());
                    self.tokened(document, token);
                },
                EnrollStage::Verify => {
                    self.stage = EnrollStage::Store;
                },
                _ => {},
            },
            EnrollEvent::Did => match self.stage {
                EnrollStage::Key => {
                    if self.failure.is_some() {
                        self.stage = EnrollStage::Finished;
                    } else {
                        self.stage = EnrollStage::Exchange;
                    }
                },
                EnrollStage::Store => {
                    self.stage = EnrollStage::Finished;
                },
                _ => {},
            },
        }
    }
}

/// What holds after a number of steps.
pub open spec fn enroll_replayed(
    s: EnrollmentView,
    events: Seq<EnrollEventView>,
) -> EnrollmentView
    decreases events.len(),
{
    if events.len() == 0 {
        s
    } else {
        enrolled_after(enroll_replayed(s, events.drop_last()), events.last())
    }
}

/// At event `j` the catalog was fetched with a token.
pub open spec fn verified_at(
    s: EnrollmentView,
    events: Seq<EnrollEventView>,
    j: int,
    token: Seq<char>,
) -> bool {
    let before = enroll_replayed(s, events.take(j));
    &&& 0 <= j < events.len()
    &&& before.stage == EnrollStage::Verify
    &&& enroll_requested(before) == EnrollActionView::Catalog(before.catalog_url, token)
    &&& events[j] is Replied
}

/// A login is kept only with a token that the catalog was fetched with before.
pub proof fn law_login_is_verified(
    bootstrap: Seq<char>,
    device_name: Seq<char>,
    events: Seq<EnrollEventView>,
)
    ensures
        ({
            let s = enroll_start(bootstrap, device_name);
            let now = enroll_replayed(s, events);
            let asked = enroll_requested(now);
            &&& asked is Store || asked is Return ==> now.token is Some && exists|j: int| #[trigger]
                verified_at(s, events, j, now.token->0)
        }),
    decreases events.len(),
{
    let s = enroll_start(bootstrap, device_name);
    let now = enroll_replayed(s, events);
    lemma_token_there(s, events);
    if events.len() > 0 {
        let before = events.drop_last();
        let was = enroll_replayed(s, before);
        let last = events.len() - 1;
        law_login_is_verified(bootstrap, device_name, before);
        lemma_token_there(s, before);
        assert(events.take(last) =~= before);
        let asked = enroll_requested(now);
        if asked is Store || asked is Return {
            if was.stage == EnrollStage::Verify {
                assert(verified_at(s, events, last, now.token->0));
            } else {
                let j = choose|j: int| #[trigger] verified_at(s, before, j, was.token->0);
                assert(events.take(j) =~= before.take(j));
                assert(verified_at(s, events, j, now.token->0));
            }
        }
    }
}

proof fn lemma_token_there(s: EnrollmentView, events: Seq<EnrollEventView>)
    requires
        s.stage == EnrollStage::Discover,
        s.failure is None,
    ensures
        ({
            let now = enroll_replayed(s, events);
            &&& now.stage == EnrollStage::Verify || now.stage == EnrollStage::Store ==> now.token
                is Some
            &&& now.stage != EnrollStage::Key && now.stage != EnrollStage::Finished ==> now.failure
                is None
        }),
    decreases events.len(),
{
    if events.len() > 0 {
        lemma_token_there(s, events.drop_last());
    }
}

} // verus!
