//! OAuth decisions over consumer-supplied network and custody ports.

use vstd::prelude::*;
use vstd::string::*;

use crate::client;
use crate::connection;
use crate::endpoint;
use crate::endpoint::{UrlParts, UrlView};
use crate::error;
use crate::error::{configuration, copy_optional, pair, transport, ClientError, ErrorView};
use crate::identity::ConnectionId;
use crate::outside;
use crate::outside::parse_url;
use crate::refusal;
use crate::secret::SecretString;
use crate::text::same;

verus! {

/// Non-secret authorization configuration for one MCP resource.
#[derive(Debug, PartialEq, Eq)]
pub struct OAuthConfig {
    /// Canonical MCP resource URL.
    pub resource_url: String,
    /// Callback URL registered for this client.
    pub redirect_uri: String,
    /// Human-readable DCR client name.
    pub client_name: String,
    /// Pre-registered client ID, if available.
    pub client_id: Option<String>,
    /// HTTPS Client ID Metadata Document URL, if hosted by the caller.
    pub client_metadata_url: Option<String>,
    /// Explicit initial scopes. Empty means challenge/metadata selection.
    pub scopes: Vec<String>,
    /// Native for local CLI callbacks, web for hosted Connect Sessions.
    pub application_type: String,
}

/// The contents of an authorization configuration.
#[verifier::ext_equal]
pub struct OAuthConfigView {
    pub resource_url: Seq<char>,
    pub redirect_uri: Seq<char>,
    pub client_name: Seq<char>,
    pub client_id: Option<Seq<char>>,
    pub client_metadata_url: Option<Seq<char>>,
    pub scopes: Seq<Seq<char>>,
    pub application_type: Seq<char>,
}

/// The characters of texts.
pub open spec fn all_texts(items: Seq<String>) -> Seq<Seq<char>> {
    Seq::new(items.len(), |i: int| items[i]@)
}

impl View for OAuthConfig {
    type V = OAuthConfigView;

    open spec fn view(&self) -> OAuthConfigView {
        OAuthConfigView {
            resource_url: self.resource_url@,
            redirect_uri: self.redirect_uri@,
            client_name: self.client_name@,
            client_id: error::optional_text(self.client_id),
            client_metadata_url: error::optional_text(self.client_metadata_url),
            scopes: all_texts(self.scopes@),
            application_type: self.application_type@,
        }
    }
}

/// A copy of texts.
pub fn copy_texts(items: &Vec<String>) -> (r: Vec<String>)
    ensures
        all_texts(r@) == all_texts(items@),
{
    let mut copies: Vec<String> = Vec::new();
    let mut i: usize = 0;
    while i < items.len()
        invariant
            i <= items@.len(),
            copies@.len() == i,
            forall|j: int| 0 <= j < i ==> (#[trigger] copies@[j])@ == items@[j]@,
        decreases items@.len() - i,
    {
        copies.push(items[i].clone());
        i = i + 1;
    }
    assert(all_texts(copies@) =~= all_texts(items@));
    copies
}

impl Clone for OAuthConfig {
    fn clone(&self) -> (r: Self)
        ensures
            r@ == self@,
    {
        OAuthConfig {
            resource_url: self.resource_url.clone(),
            redirect_uri: self.redirect_uri.clone(),
            client_name: self.client_name.clone(),
            client_id: copy_optional(&self.client_id),
            client_metadata_url: copy_optional(&self.client_metadata_url),
            scopes: copy_texts(&self.scopes),
            application_type: self.application_type.clone(),
        }
    }
}

/// The client name where a declaration gives none.
pub fn default_client_name() -> (r: String)
    ensures
        r@ == "b10x MCP client"@,
{
    "b10x MCP client".to_owned()
}

/// The application type where a declaration gives none.
pub fn default_application_type() -> (r: String)
    ensures
        r@ == "native"@,
{
    "native".to_owned()
}

/// What speaks against a resource URL that was parsed like this.
pub open spec fn resource_refusal(parsed: Result<UrlView, Seq<char>>) -> Option<ErrorView> {
    match parsed {
        Err(reason) => Some(ErrorView::Configuration("invalid OAuth resource: "@ + reason)),
        Ok(url) => if url.protected() {
            None
        } else {
            Some(ErrorView::Configuration("OAuth resource requires HTTPS except on loopback"@))
        },
    }
}

/// What speaks against a redirect URL that was parsed like this.
pub open spec fn redirect_refusal(parsed: Result<UrlView, Seq<char>>) -> Option<ErrorView> {
    match parsed {
        Err(reason) => Some(ErrorView::Configuration("invalid OAuth redirect: "@ + reason)),
        Ok(url) => if url.fragment is Some {
            Some(ErrorView::Configuration("OAuth redirect cannot contain a fragment"@))
        } else {
            None
        },
    }
}

/// What speaks against an authorization configuration whose URLs were parsed like this.
pub open spec fn config_refusal(
    config: OAuthConfigView,
    resource: Result<UrlView, Seq<char>>,
    redirect: Result<UrlView, Seq<char>>,
) -> Option<ErrorView> {
    if resource_refusal(resource) is Some {
        resource_refusal(resource)
    } else if redirect_refusal(redirect) is Some {
        redirect_refusal(redirect)
    } else if config.client_id is None && config.client_metadata_url is None
        && config.client_name.len() == 0 {
        Some(ErrorView::Configuration("OAuth DCR requires a client name"@))
    } else {
        None
    }
}

/// Checks an authorization configuration.
pub fn validate_config(config: &OAuthConfig) -> (r: Result<(), ClientError>)
    ensures
        refusal::checked(
            r,
            config_refusal(
                config@,
                outside::parsed_url(config.resource_url@),
                outside::parsed_url(config.redirect_uri@),
            ),
        ),
{
    validate_parsed(
        config,
        parse_url(config.resource_url.as_str()),
        parse_url(config.redirect_uri.as_str()),
    )
}

/// Checks an authorization configuration whose URLs were parsed like this.
pub fn validate_parsed(
    config: &OAuthConfig,
    resource: Result<UrlParts, String>,
    redirect: Result<UrlParts, String>,
) -> (r: Result<(), ClientError>)
    ensures
        refusal::checked(
            r,
            config_refusal(
                config@,
                endpoint::url_outcome(resource),
                endpoint::url_outcome(redirect),
            ),
        ),
{
    match resource {
        Ok(url) => if !url.is_protected() {
            return Err(configuration("OAuth resource requires HTTPS except on loopback"));
        },
        Err(reason) => return Err(
            ClientError::Configuration(pair("invalid OAuth resource: ", reason.as_str())),
        ),
    }
    match redirect {
        Ok(url) => if url.fragment.is_some() {
            return Err(configuration("OAuth redirect cannot contain a fragment"));
        },
        Err(reason) => return Err(
            ClientError::Configuration(pair("invalid OAuth redirect: ", reason.as_str())),
        ),
    }
    if config.client_id.is_none() && config.client_metadata_url.is_none()
        && config.client_name.as_str().is_empty() {
        return Err(configuration("OAuth DCR requires a client name"));
    }
    Ok(())
}

/// OAuth engine configured with consumer-owned network and custody adapters.
pub struct OAuthEngine<H, C, S> {
    config: OAuthConfig,
    http: H,
    credentials: C,
    states: S,
}

/// The contents of an engine: its configuration and its adapters.
#[verifier::ext_equal]
pub struct EngineView<H, C, S> {
    pub config: OAuthConfigView,
    pub http: H,
    pub credentials: C,
    pub states: S,
}

impl<H, C, S> View for OAuthEngine<H, C, S> {
    type V = EngineView<H, C, S>;

    closed spec fn view(&self) -> EngineView<H, C, S> {
        EngineView {
            config: self.config@,
            http: self.http,
            credentials: self.credentials,
            states: self.states,
        }
    }
}

/// How an authorization-code flow is to be requested.
pub struct AuthorizationPlan {
    /// Callback URL.
    pub redirect_uri: String,
    /// Client name.
    pub client_name: String,
    /// Application type.
    pub application_type: String,
    /// Initial scopes.
    pub scopes: Vec<String>,
    /// Pre-registered client ID.
    pub preregistered_client: Option<String>,
    /// Secret of a confidential client.
    pub client_secret: Option<SecretString>,
    /// Client ID Metadata Document URL.
    pub client_metadata_url: Option<String>,
    /// Challenge that the server sent.
    pub challenge: Option<String>,
}

/// The contents of an authorization plan.
#[verifier::ext_equal]
pub struct AuthorizationPlanView {
    pub redirect_uri: Seq<char>,
    pub client_name: Seq<char>,
    pub application_type: Seq<char>,
    pub scopes: Seq<Seq<char>>,
    pub preregistered_client: Option<Seq<char>>,
    pub client_secret: Option<Seq<char>>,
    pub client_metadata_url: Option<Seq<char>>,
    pub challenge: Option<Seq<char>>,
}

impl View for AuthorizationPlan {
    type V = AuthorizationPlanView;

    open spec fn view(&self) -> AuthorizationPlanView {
        AuthorizationPlanView {
            redirect_uri: self.redirect_uri@,
            client_name: self.client_name@,
            application_type: self.application_type@,
            scopes: all_texts(self.scopes@),
            preregistered_client: error::optional_text(self.preregistered_client),
            client_secret: client::optional_secret(self.client_secret),
            client_metadata_url: error::optional_text(self.client_metadata_url),
            challenge: error::optional_text(self.challenge),
        }
    }
}

/// How a flow is requested under a configuration, with a secret and a challenge where there
/// are any.
pub open spec fn authorization_plan(
    config: OAuthConfigView,
    client_secret: Option<Seq<char>>,
    challenge: Option<Seq<char>>,
) -> AuthorizationPlanView {
    AuthorizationPlanView {
        redirect_uri: config.redirect_uri,
        client_name: config.client_name,
        application_type: config.application_type,
        scopes: config.scopes,
        preregistered_client: config.client_id,
        client_secret,
        client_metadata_url: config.client_metadata_url,
        challenge,
    }
}

impl<H, C, S> OAuthEngine<H, C, S> {
    #[verifier::type_invariant]
    spec fn admitted(self) -> bool {
        config_refusal(
            self.config@,
            outside::parsed_url(self.config.resource_url@),
            outside::parsed_url(self.config.redirect_uri@),
        ) is None
    }

    /// Builds an engine. No network or store access occurs.
    pub fn new(config: OAuthConfig, http: H, credentials: C, states: S) -> (r: Result<
        Self,
        ClientError,
    >)
        ensures
            refusal::checked(
                r,
                config_refusal(
                    config@,
                    outside::parsed_url(config.resource_url@),
                    outside::parsed_url(config.redirect_uri@),
                ),
            ),
            r is Ok ==> r->Ok_0@ == (EngineView { config: config@, http, credentials, states }),
    {
        match validate_config(&config) {
            Ok(()) => Ok(OAuthEngine { config, http, credentials, states }),
            Err(error) => Err(error),
        }
    }

    /// The configuration, which was found to have nothing against it.
    pub fn config(&self) -> (r: &OAuthConfig)
        ensures
            r@ == self@.config,
            config_refusal(
                r@,
                outside::parsed_url(r.resource_url@),
                outside::parsed_url(r.redirect_uri@),
            ) is None,
    {
        proof {
            use_type_invariant(self);
        }
        &self.config
    }

    /// The network adapter.
    pub fn http(&self) -> (r: &H)
        ensures
            *r == self@.http,
    {
        &self.http
    }

    /// The credential custody adapter.
    pub fn credentials(&self) -> (r: &C)
        ensures
            *r == self@.credentials,
    {
        &self.credentials
    }

    /// The state custody adapter.
    pub fn states(&self) -> (r: &S)
        ensures
            *r == self@.states,
    {
        &self.states
    }

    /// Plans an authorization-code flow using pre-registration, CIMD, then DCR.
    pub fn begin(&self, client_secret: Option<&SecretString>, challenge: Option<&str>) -> (r:
        AuthorizationPlan)
        ensures
            r@ == authorization_plan(
                self@.config,
                client::borrowed_secret(client_secret),
                connection::borrowed_text(challenge),
            ),
    {
        AuthorizationPlan {
            redirect_uri: self.config.redirect_uri.clone(),
            client_name: self.config.client_name.clone(),
            application_type: self.config.application_type.clone(),
            scopes: copy_texts(&self.config.scopes),
            preregistered_client: copy_optional(&self.config.client_id),
            client_secret: match client_secret {
                Some(secret) => Some(secret.clone()),
                None => None,
            },
            client_metadata_url: copy_optional(&self.config.client_metadata_url),
            challenge: match challenge {
                Some(challenge) => Some(challenge.to_owned()),
                None => None,
            },
        }
    }
}

/// An authorization flow waiting for the browser callback.
pub struct PendingAuthorization<A> {
    authorization_url: String,
    session: A,
}

/// The contents of a flow: where it starts and the session behind it.
#[verifier::ext_equal]
pub struct PendingView<A> {
    pub authorization_url: Seq<char>,
    pub session: A,
}

impl<A> View for PendingAuthorization<A> {
    type V = PendingView<A>;

    closed spec fn view(&self) -> PendingView<A> {
        PendingView { authorization_url: self.authorization_url@, session: self.session }
    }
}

impl<A> PendingAuthorization<A> {
    /// A flow that starts at a URL.
    pub fn new(authorization_url: String, session: A) -> (r: Self)
        ensures
            r@ == (PendingView { authorization_url: authorization_url@, session }),
    {
        PendingAuthorization { authorization_url, session }
    }

    /// URL the resource owner must visit.
    pub fn authorization_url(&self) -> (r: &str)
        ensures
            r@ == self@.authorization_url,
    {
        self.authorization_url.as_str()
    }

    /// The session, to validate the callback and exchange the code.
    pub fn finish(self) -> (r: A)
        ensures
            r == self@.session,
    {
        self.session
    }
}

/// Why an authorization operation failed.
#[derive(Debug, PartialEq, Eq)]
pub enum AuthFailure {
    /// Nobody has authorized this client.
    AuthorizationRequired,
    /// The refresh token was refused for good.
    TokenRefreshRejected,
    /// The server wants another scope.
    InsufficientScope {
        /// Scope wanted.
        required_scope: String,
    },
    /// Anything else.
    Other,
}

/// What a failed authorization operation is reported as.
pub open spec fn auth_report(failure: AuthFailure) -> ErrorView {
    match failure {
        AuthFailure::AuthorizationRequired | AuthFailure::TokenRefreshRejected => {
            ErrorView::AuthorizationRequired { connection: "oauth"@, scope: None }
        },
        AuthFailure::InsufficientScope { required_scope } => ErrorView::AuthorizationRequired {
            connection: "oauth"@,
            scope: Some(required_scope@),
        },
        AuthFailure::Other => ErrorView::Transport("OAuth operation failed"@),
    }
}

/// Reports a failed authorization operation, without anything that a server said but a scope.
pub fn auth_error(failure: AuthFailure) -> (r: ClientError)
    ensures
        r@ == auth_report(failure),
{
    match failure {
        AuthFailure::AuthorizationRequired => ClientError::AuthorizationRequired {
            connection: ConnectionId::oauth(),
            scope: None,
        },
        AuthFailure::TokenRefreshRejected => ClientError::AuthorizationRequired {
            connection: ConnectionId::oauth(),
            scope: None,
        },
        AuthFailure::InsufficientScope { required_scope } => ClientError::AuthorizationRequired {
            connection: ConnectionId::oauth(),
            scope: Some(required_scope),
        },
        AuthFailure::Other => transport("OAuth operation failed"),
    }
}

/// What stored credentials mean for an access token: a refusal, or that one can be asked for.
pub open spec fn stored_refusal(present: Result<bool, AuthFailure>) -> Option<ErrorView> {
    match present {
        Ok(true) => None,
        Ok(false) => Some(ErrorView::AuthorizationRequired { connection: "oauth"@, scope: None }),
        Err(failure) => Some(auth_report(failure)),
    }
}

/// Decides whether an access token can be asked for without user interaction.
pub fn require_stored(present: Result<bool, AuthFailure>) -> (r: Result<(), ClientError>)
    ensures
        refusal::checked(r, stored_refusal(present)),
{
    match present {
        Ok(present) => if present {
            Ok(())
        } else {
            Err(
                ClientError::AuthorizationRequired {
                    connection: ConnectionId::oauth(),
                    scope: None,
                },
            )
        },
        Err(failure) => Err(auth_error(failure)),
    }
}

/// The access token that was issued, or what was reported instead.
pub open spec fn issued_token(issued: Result<String, AuthFailure>) -> Result<
    Seq<char>,
    ErrorView,
> {
    match issued {
        Ok(token) => Ok(token@),
        Err(failure) => Err(auth_report(failure)),
    }
}

/// Takes custody of an access token that was asked for.
pub fn access_token(issued: Result<String, AuthFailure>) -> (r: Result<SecretString, ClientError>)
    ensures
        error::outcome(r) == issued_token(issued),
{
    match issued {
        Ok(token) => Ok(SecretString::new(token)),
        Err(failure) => Err(auth_error(failure)),
    }
}

/// Credentials together with the resource that they were issued for.
pub struct BoundCredentials<T> {
    /// Canonical MCP resource URL.
    pub resource: String,
    /// The credentials.
    pub credentials: T,
}

impl<T> BoundCredentials<T> {
    /// Binds credentials to a resource.
    pub fn bind(resource: &str, credentials: T) -> (r: Self)
        ensures
            r.resource@ == resource@,
            r.credentials == credentials,
    {
        BoundCredentials { resource: resource.to_owned(), credentials }
    }
}

/// What a resource may do with a stored document.
pub enum Claim<T> {
    /// There is no document.
    Absent,
    /// The credentials belong to another resource: the document has to be deleted.
    Foreign,
    /// The credentials are this resource's.
    Own(T),
}

/// What a resource may do with what its store holds: nothing, a malformed document, or
/// bound credentials.
pub open spec fn claimed<T>(resource: Seq<char>, stored: Option<Option<BoundCredentials<T>>>) -> Result<
    Claim<T>,
    Seq<char>,
> {
    match stored {
        None => Ok(Claim::Absent),
        Some(None) => Err("stored OAuth credentials are malformed"@),
        Some(Some(bound)) => if bound.resource@ == resource {
            Ok(Claim::Own(bound.credentials))
        } else {
            Ok(Claim::Foreign)
        },
    }
}

/// An outcome whose failure is a text, seen through its views.
pub open spec fn text_outcome<T>(r: Result<T, String>) -> Result<T, Seq<char>> {
    match r {
        Ok(value) => Ok(value),
        Err(message) => Err(message@),
    }
}

/// Claims what a store holds for a resource.
pub fn claim_credentials<T>(
    resource: &str,
    stored: Option<Option<BoundCredentials<T>>>,
) -> (r: Result<Claim<T>, String>)
    ensures
        text_outcome(r) == claimed(resource@, stored),
{
    match stored {
        None => Ok(Claim::Absent),
        Some(None) => Err("stored OAuth credentials are malformed".to_owned()),
        Some(Some(bound)) => if same(bound.resource.as_str(), resource) {
            Ok(Claim::Own(bound.credentials))
        } else {
            Ok(Claim::Foreign)
        },
    }
}

/// The state that a store holds: nothing, a malformed document, or a state.
pub open spec fn restored<T>(stored: Option<Option<T>>) -> Result<Option<T>, Seq<char>> {
    match stored {
        None => Ok(None),
        Some(None) => Err("stored OAuth state is malformed"@),
        Some(Some(state)) => Ok(Some(state)),
    }
}

/// Takes the state that a store holds: nothing, a malformed document, or a state.
pub fn restore_state<T>(stored: Option<Option<T>>) -> (r: Result<Option<T>, String>)
    ensures
        text_outcome(r) == restored(stored),
{
    match stored {
        None => Ok(None),
        Some(None) => Err("stored OAuth state is malformed".to_owned()),
        Some(Some(state)) => Ok(Some(state)),
    }
}

/// A kind of document that a store keeps.
#[derive(Debug, Clone, Copy, PartialEq, Eq, Structural)]
pub enum DocumentKind {
    /// Bound credentials.
    Credentials,
    /// A pending authorization.
    State,
}

/// Takes custody of a document that was serialized, or could not be.
pub fn seal_document(kind: DocumentKind, document: Option<String>) -> (r: Result<
    SecretString,
    String,
>)
    ensures
        r is Ok <==> document is Some,
        r is Ok ==> r->Ok_0@ == document->0@,
        r is Err ==> r->Err_0@ == match kind {
            DocumentKind::Credentials => "serializing OAuth credentials failed"@,
            DocumentKind::State => "serializing OAuth state failed"@,
        },
{
    match document {
        Some(document) => Ok(SecretString::new(document)),
        None => Err(
            match kind {
                DocumentKind::Credentials => "serializing OAuth credentials failed".to_owned(),
                DocumentKind::State => "serializing OAuth state failed".to_owned(),
            },
        ),
    }
}

} // verus!
