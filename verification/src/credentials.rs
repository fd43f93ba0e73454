//! Credentials for providers, and the keys of a device.
use vstd::prelude::*;
use crate::address;
use crate::json;
use crate::paths;
use crate::random;
use crate::text;
use crate::address::{parse_url, UrlParts, UrlPartsView};
use crate::json::Json;
use crate::paths::join_path;
use crate::process::RunResult;
use crate::random::unique_hyphenated;
use crate::text::{cat2, cat3, is_blank, same_text, signed_text, strip_suffix_text, trimmed};
use crate::text_map::TextMap;

verus! {

/// Why a provider or a credential is not accepted.
#[derive(Debug, Clone, PartialEq, Eq)]
pub enum CredentialError {
    /// Not an absolute URL.
    InvalidUrl(String),
    /// A provider on another machine that is not reached over HTTPS.
    Insecure,
    /// A credential without characters.
    Empty,
    /// The credential helper failed, for the reason given.
    Helper(String),
    /// A key could not be written.
    Key,
}

/// What a [`CredentialError`] says.
pub open spec fn credential_text(e: CredentialError) -> Seq<char> {
    match e {
        CredentialError::InvalidUrl(url) => "invalid provider URL "@ + url@,
        CredentialError::Insecure => "RepoSync providers must use HTTPS except on localhost"@,
        CredentialError::Empty => "cannot store an empty credential"@,
        CredentialError::Helper(reason) => "credential helper failed: "@ + reason@,
        CredentialError::Key => "a device key could not be encoded"@,
    }
}

impl CredentialError {
    /// The message of the error.
    pub fn message(&self) -> (r: String)
        ensures
            r@ == credential_text(*self),
    {
        match self {
            CredentialError::InvalidUrl(url) => cat2("invalid provider URL ", url.as_str()),
            CredentialError::Insecure => {
                "RepoSync providers must use HTTPS except on localhost".to_owned()
            },
            CredentialError::Empty => "cannot store an empty credential".to_owned(),
            CredentialError::Helper(reason) => {
                cat2("credential helper failed: ", reason.as_str())
            },
            CredentialError::Key => "a device key could not be encoded".to_owned(),
        }
    }
}

/// A URL on this machine that needs no encryption.
pub open spec fn is_local(parts: UrlPartsView) -> bool {
    parts.scheme == "http"@ && (parts.host == Some("localhost"@) || parts.host == Some(
        "127.0.0.1"@,
    ) || parts.host == Some("::1"@))
}

/// A provider that is reached over HTTPS, or on this machine.
pub open spec fn is_secure(parts: UrlPartsView) -> bool {
    parts.scheme == "https"@ || is_local(parts)
}

/// The origin of the provider that a text stands for, where the provider is accepted.
pub open spec fn origin_of(value: Seq<char>) -> Option<Seq<char>> {
    match address::url_parts(value) {
        Some(parts) => if is_secure(parts) {
            Some(parts.origin)
        } else {
            None
        },
        None => None,
    }
}

/// A provider whose host is no internationalized one.
pub open spec fn is_plain_provider(value: Seq<char>) -> bool {
    match address::url_parts(value) {
        Some(parts) => address::is_plain(parts),
        None => false,
    }
}

/// The origin of a provider that is its own origin, without whitespace at its ends.
pub open spec fn is_own_origin(origin: Seq<char>) -> bool {
    origin_of(origin) == Some(origin) && text::is_tight(origin)
}

/// Whether an error is the one for a text under which no provider is accepted.
pub open spec fn is_refusal(value: Seq<char>, e: CredentialError) -> bool {
    match address::url_parts(value) {
        None => e matches CredentialError::InvalidUrl(url) && url@ == value,
        Some(parts) => !is_secure(parts) && e == CredentialError::Insecure,
    }
}

/// The origin of a provider, given the parts of its URL.
pub fn secure_origin(value: &str, parts: Option<UrlParts>) -> (r: Result<String, CredentialError>)
    ensures
        match parts {
            None => r matches Err(CredentialError::InvalidUrl(url)) && url@ == value@,
            Some(url) => if is_secure(url@) {
                r matches Ok(origin) && origin@ == url@.origin
            } else {
                r == Err::<String, CredentialError>(CredentialError::Insecure)
            },
        },
{
    match parts {
        None => Err(CredentialError::InvalidUrl(value.to_owned())),
        Some(url) => {
            let here = match &url.host {
                Some(host) => same_text(host.as_str(), "localhost") || same_text(
                    host.as_str(),
                    "127.0.0.1",
                ) || same_text(host.as_str(), "::1"),
                None => false,
            };
            let local = same_text(url.scheme.as_str(), "http") && here;
            if !same_text(url.scheme.as_str(), "https") && !local {
                return Err(CredentialError::Insecure);
            }
            Ok(url.origin)
        },
    }
}

/// The origin of the provider that a text stands for.
pub fn canonical_origin(value: &str) -> (r: Result<String, CredentialError>)
    ensures
        match r {
            Ok(origin) => {
                &&& origin_of(value@) == Some(origin@)
                &&& is_plain_provider(value@) ==> is_own_origin(origin@)
            },
            Err(e) => is_refusal(value@, e),
        },
{
    let parts = parse_url(value);
    secure_origin(value, parts)
}

/// What a credential helper that ran has to say.
#[derive(Debug, Clone, PartialEq, Eq)]
pub enum HelperReply {
    /// It did what it was asked to.
    Done,
    /// It knows no credential.
    Nothing,
    /// It wrote this document, which may hold a token.
    Document(String),
}

/// Reads what a credential helper left behind.
pub fn helper(operation: &str, result: &RunResult) -> (r: Result<HelperReply, CredentialError>)
    ensures
        match r {
            Err(e) => result.code != 0 && (e matches CredentialError::Helper(reason) && reason@ == if text::trim(
                result.stderr@,
            ).len() == 0 {
                "exit "@ + text::signed_decimal(result.code as int)
            } else {
                text::trim(result.stderr@)
            }),
            Ok(HelperReply::Done) => result.code == 0 && operation@ != "get"@,
            Ok(HelperReply::Nothing) => result.code == 0 && operation@ == "get"@ && text::trim(
                result.stdout@,
            ).len() == 0,
            Ok(HelperReply::Document(text)) => result.code == 0 && operation@ == "get"@ && text::trim(
                result.stdout@,
            ).len() > 0 && text@ == text::trim(result.stdout@),
        },
{
    if result.code != 0 {
        let errors = trimmed(result.stderr.as_str());
        if is_blank(errors.as_str()) {
            let code = signed_text(result.code as i64);
            return Err(CredentialError::Helper(cat2("exit ", code.as_str())));
        }
        return Err(CredentialError::Helper(errors));
    }
    if !same_text(operation, "get") {
        return Ok(HelperReply::Done);
    }
    let output = trimmed(result.stdout.as_str());
    if is_blank(output.as_str()) {
        Ok(HelperReply::Nothing)
    } else {
        Ok(HelperReply::Document(output))
    }
}

/// The token in the document of a credential helper.
pub fn helper_token(document: &Json) -> (r: Option<String>)
    ensures
        text::opt_view(r) == json::text_field(*document, "token"@),
{
    match document.text_at("token") {
        Some(token) => Some(token.to_owned()),
        None => None,
    }
}

/// A credential as it is stored.
#[derive(Debug, Clone, PartialEq, Eq)]
pub struct StoredCredential {
    pub token: String,
    pub updated_at: String,
}

/// What a [`StoredCredential`] holds.
pub struct StoredCredentialView {
    pub token: Seq<char>,
    pub updated_at: Seq<char>,
}

impl View for StoredCredential {
    type V = StoredCredentialView;

    open spec fn view(&self) -> StoredCredentialView {
        StoredCredentialView {
            token: self.token@,
            updated_at: self.updated_at@,
        }
    }
}

impl StoredCredential {
    /// A second value with the same contents.
    pub fn copy(&self) -> (r: Self)
        ensures
            r@ == self@,
    {
        StoredCredential {
            token: self.token.clone(),
            updated_at: self.updated_at.clone(),
        }
    }
}

/// The credentials of all providers, by origin.
#[derive(Debug)]
pub struct CredentialFile {
    pub version: u32,
    pub providers: TextMap<StoredCredential>,
}

/// The token that is stored for an origin.
pub open spec fn stored_token(file: CredentialFile, origin: Seq<char>) -> Option<Seq<char>> {
    if file.providers@.contains_key(origin) {
        Some(file.providers@[origin].token@)
    } else {
        None
    }
}

impl Default for CredentialFile {
    fn default() -> (r: Self)
        ensures
            r.version == 0,
            r.providers@ == Map::<Seq<char>, StoredCredential>::empty(),
    {
        CredentialFile { version: 0, providers: TextMap::new() }
    }
}

/// Finds the credential for an origin: what a helper said, else the token of the environment
/// where it is meant for this origin or for none, else the stored one. An empty answer of a
/// helper means that there is no credential.
pub fn load_credential(
    origin: &str,
    external: &Option<String>,
    token: &Option<String>,
    token_provider: &Option<String>,
    stored: &CredentialFile,
) -> (r: Result<Option<String>, CredentialError>)
    ensures
        match (*external, *token, *token_provider) {
            (Some(answer), _, _) => r matches Ok(found) && text::opt_view(found) == if answer@.len()
                == 0 {
                None
            } else {
                Some(answer@)
            },
            (None, Some(value), None) => r matches Ok(found) && text::opt_view(found) == Some(value@),
            (None, Some(value), Some(provider)) => match origin_of(provider@) {
                None => r matches Err(e) && is_refusal(provider@, e),
                Some(other) => r matches Ok(found) && text::opt_view(found) == if other == origin@ {
                    Some(value@)
                } else {
                    stored_token(*stored, origin@)
                },
            },
            (None, None, _) => r matches Ok(found) && text::opt_view(found) == stored_token(
                *stored,
                origin@,
            ),
        },
{
    match external {
        Some(answer) => {
            if is_blank(answer.as_str()) {
                return Ok(None);
            }
            return Ok(Some(answer.clone()));
        },
        None => {},
    }
    match token {
        Some(value) => match token_provider {
            None => {
                return Ok(Some(value.clone()));
            },
            Some(provider) => match canonical_origin(provider.as_str()) {
                Ok(other) => {
                    if same_text(other.as_str(), origin) {
                        return Ok(Some(value.clone()));
                    }
                },
                Err(e) => {
                    return Err(e);
                },
            },
        },
        None => {},
    }
    match stored.providers.get(origin) {
        Some(credential) => Ok(Some(credential.token.clone())),
        None => Ok(None),
    }
}

/// Stores the credential for an origin; an empty one is refused.
pub fn store_credential(
    file: &mut CredentialFile,
    origin: &str,
    token: &str,
    now: &str,
) -> (r: Result<(), CredentialError>)
    ensures
        token@.len() == 0 ==> r == Err::<(), CredentialError>(CredentialError::Empty),
        token@.len() == 0 ==> *final(file) == *old(file),
        token@.len() > 0 ==> {
            &&& r is Ok
            &&& final(file).version == old(file).version
            &&& final(file).providers@ == old(file).providers@.insert(
                origin@,
                final(file).providers@[origin@],
            )
            &&& final(file).providers@[origin@]@ == (StoredCredentialView {
                token: token@,
                updated_at: now@,
            })
        },
{
    if is_blank(token) {
        return Err(CredentialError::Empty);
    }
    file.providers.insert(
        origin.to_owned(),
        StoredCredential { token: token.to_owned(), updated_at: now.to_owned() },
    );
    Ok(())
}

/// Forgets the credential for an origin.
pub fn erase_credential(file: &mut CredentialFile, origin: &str)
    ensures
        final(file).version == old(file).version,
        final(file).providers@ == old(file).providers@.remove(origin@),
{
    let _ = file.providers.remove(origin);
}

/// After a credential was stored it is found; after it was erased it is not. What is kept for
/// another provider stays.
pub proof fn law_stored_is_found(
    before: CredentialFile,
    after: CredentialFile,
    erased: CredentialFile,
    origin: Seq<char>,
    credential: StoredCredential,
    other: Seq<char>,
)
    requires
        after.providers@ == before.providers@.insert(origin, credential),
        erased.providers@ == after.providers@.remove(origin),
        other != origin,
    ensures
        stored_token(after, origin) == Some(credential@.token),
        stored_token(erased, origin) is None,
        stored_token(after, other) == stored_token(before, other),
        stored_token(erased, other) == stored_token(before, other),
{
}

/// The name of a device and where its keys are.
#[derive(Debug, Clone, PartialEq, Eq)]
pub struct DeviceIdentity {
    pub name: String,
    pub private_key_path: String,
    pub public_key_path: String,
    pub public_key: String,
}

/// What a [`DeviceIdentity`] holds.
pub struct DeviceIdentityView {
    pub name: Seq<char>,
    pub private_key_path: Seq<char>,
    pub public_key_path: Seq<char>,
    pub public_key: Seq<char>,
}

impl View for DeviceIdentity {
    type V = DeviceIdentityView;

    open spec fn view(&self) -> DeviceIdentityView {
        DeviceIdentityView {
            name: self.name@,
            private_key_path: self.private_key_path@,
            public_key_path: self.public_key_path@,
            public_key: self.public_key@,
        }
    }
}

impl DeviceIdentity {
    /// A second value with the same contents.
    pub fn copy(&self) -> (r: Self)
        ensures
            r@ == self@,
    {
        DeviceIdentity {
            name: self.name.clone(),
            private_key_path: self.private_key_path.clone(),
            public_key_path: self.public_key_path.clone(),
            public_key: self.public_key.clone(),
        }
    }
}

/// The private key for a seed, as `ed25519_dalek` writes it in PEM.
pub uninterp spec fn private_key_pem(seed: Seq<u8>) -> Option<Seq<char>>;

/// The public key for a seed, as `ed25519_dalek` writes it in PEM.
pub uninterp spec fn public_key_pem(seed: Seq<u8>) -> Option<Seq<char>>;

/// `ed25519_dalek::SigningKey::generate` with the generator of the operating system: the 32 bytes
/// of a new key, which chance decides.
#[verifier::external_body]
pub(crate) fn new_key_seed() -> (r: Vec<u8>)
    ensures
        r@.len() == 32,
{
    ed25519_dalek::SigningKey::generate(&mut rand_core::OsRng).to_bytes().to_vec()
}

/// `EncodePrivateKey::to_pkcs8_pem` of the signing key with the given bytes, with line feeds: a
/// text that depends on the bytes alone; none where the key cannot be encoded.
#[verifier::external_body]
pub(crate) fn private_pem(seed: &Vec<u8>) -> (r: Option<String>)
    requires
        seed@.len() == 32,
    ensures
        text::opt_view(r) == private_key_pem(seed@),
{
    let bytes: [u8; 32] = match seed.as_slice().try_into() {
        Ok(bytes) => bytes,
        Err(_) => return None,
    };
    let key = ed25519_dalek::SigningKey::from_bytes(&bytes);
    match ed25519_dalek::pkcs8::EncodePrivateKey::to_pkcs8_pem(&key, pkcs8::LineEnding::LF) {
        Ok(text) => Some(text.to_string()),
        Err(_) => None,
    }
}

/// `EncodePublicKey::to_public_key_pem` of the verifying key for the given bytes, with line feeds:
/// a text that depends on the bytes alone; none where the key cannot be encoded.
#[verifier::external_body]
pub(crate) fn public_pem(seed: &Vec<u8>) -> (r: Option<String>)
    requires
        seed@.len() == 32,
    ensures
        text::opt_view(r) == public_key_pem(seed@),
{
    let bytes: [u8; 32] = match seed.as_slice().try_into() {
        Ok(bytes) => bytes,
        Err(_) => return None,
    };
    let key = ed25519_dalek::SigningKey::from_bytes(&bytes).verifying_key();
    match ed25519_dalek::pkcs8::EncodePublicKey::to_public_key_pem(&key, pkcs8::LineEnding::LF) {
        Ok(text) => Some(text),
        Err(_) => None,
    }
}

/// A device with a new key: the private key is still to be written to its place.
#[derive(Debug, Clone, PartialEq, Eq)]
pub struct NewDevice {
    pub identity: DeviceIdentity,
    pub private_key: String,
}

/// Where the keys of a device lie, by the identifier of the key.
pub open spec fn key_path(keys: Seq<char>, id: Seq<char>, ending: Seq<char>) -> Seq<char> {
    paths::joined(keys, "key_"@ + id + ending)
}

/// What comes of making a device under an identifier, with the key of the given bytes.
pub open spec fn is_device_for(
    r: Result<NewDevice, CredentialError>,
    name: Seq<char>,
    keys: Seq<char>,
    id: Seq<char>,
    seed: Seq<u8>,
) -> bool {
    match (private_key_pem(seed), public_key_pem(seed)) {
        (Some(private), Some(public)) => r matches Ok(device) && device.private_key@ == private
            && device.identity@ == (DeviceIdentityView {
            name,
            private_key_path: key_path(keys, id, ".pem"@),
            public_key_path: key_path(keys, id, ".pub.pem"@),
            public_key: public,
        }),
        _ => r == Err::<NewDevice, CredentialError>(CredentialError::Key),
    }
}

/// A device with the key of the given bytes, under the given identifier.
pub fn device_identity(name: &str, keys: &str, id: &str, seed: &Vec<u8>) -> (r: Result<
    NewDevice,
    CredentialError,
>)
    requires
        seed@.len() == 32,
    ensures
        is_device_for(r, name@, keys@, id@, seed@),
{
    let private_file = cat3("key_", id, ".pem");
    let public_file = cat3("key_", id, ".pub.pem");
    match (private_pem(seed), public_pem(seed)) {
        (Some(private_key), Some(public_key)) => Ok(
            NewDevice {
                identity: DeviceIdentity {
                    name: name.to_owned(),
                    private_key_path: join_path(keys, private_file.as_str()),
                    public_key_path: join_path(keys, public_file.as_str()),
                    public_key,
                },
                private_key,
            },
        ),
        _ => Err(CredentialError::Key),
    }
}

/// A device with a new key, below the directory of the keys. Chance decides the identifier and the
/// bytes of the key.
pub fn generate_device_identity(name: &str, keys: &str) -> (r: Result<NewDevice, CredentialError>)
    ensures
        exists|id: Seq<char>, seed: Seq<u8>|
            random::is_unique_name(id) && seed.len() == 32 && #[trigger] is_device_for(
                r,
                name@,
                keys@,
                id,
                seed,
            ),
{
    let id = unique_hyphenated();
    let seed = new_key_seed();
    let r = device_identity(name, keys, id.as_str(), &seed);
    assert(is_device_for(r, name@, keys@, id@, seed@));
    r
}

/// The files that go with a device: its public key and the private key beside it.
pub open spec fn device_files(public: Option<Seq<char>>) -> Seq<Seq<char>> {
    match public {
        None => Seq::empty(),
        Some(path) => match text::before_suffix(path, ".pub.pem"@) {
            Some(prefix) => seq![path, prefix + ".pem"@],
            None => seq![path],
        },
    }
}

/// The files to remove when a device is forgotten.
pub fn remove_device_identity(public_key_path: &Option<String>) -> (r: Vec<String>)
    ensures
        text::views(r@) == device_files(text::opt_view(*public_key_path)),
{
    let mut r: Vec<String> = Vec::new();
    assert(text::views(r@) =~= Seq::empty());
    match public_key_path {
        None => {},
        Some(path) => {
            r.push(path.clone());
            assert(text::views(r@) =~= seq![path@]);
            match strip_suffix_text(path.as_str(), ".pub.pem") {
                Some(prefix) => {
                    r.push(cat2(prefix.as_str(), ".pem"));
                    assert(text::views(r@) =~= seq![path@, prefix@ + ".pem"@]);
                },
                None => {},
            }
        },
    }
    r
}

/// Forgetting a device that was made here removes both of its keys.
pub proof fn law_both_keys_are_removed(keys: Seq<char>, id: Seq<char>)
    requires
        !paths::is_absolute("key_"@ + id + ".pem"@),
        !paths::is_absolute("key_"@ + id + ".pub.pem"@),
    ensures
        device_files(Some(key_path(keys, id, ".pub.pem"@))) == seq![
            key_path(keys, id, ".pub.pem"@),
            key_path(keys, id, ".pem"@),
        ],
{
    let public = key_path(keys, id, ".pub.pem"@);
    let private = key_path(keys, id, ".pem"@);
    let front = if keys.len() > 0 && keys.last() != '/' {
        keys + seq!['/'] + ("key_"@ + id)
    } else {
        keys + ("key_"@ + id)
    };
    assert(public =~= front + ".pub.pem"@);
    assert(private =~= front + ".pem"@);
    assert(public.subrange(public.len() - ".pub.pem"@.len(), public.len() as int) =~= ".pub.pem"@);
    assert(".pub.pem"@.is_suffix_of(public));
    assert(public.take(public.len() - ".pub.pem"@.len()) =~= front);
}

} // verus!
