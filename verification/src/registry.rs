//! The strict registry of named connections.

use vstd::prelude::*;
use vstd::string::*;

use crate::bearer;
use crate::bearer::{validate_environment_name, validate_source, BearerSource, SourceView};
use crate::error::{joined, ClientError, ErrorView};
use crate::headers;
use crate::identity;
use crate::identity::ConnectionId;
use crate::oauth;
use crate::oauth::{OAuthConfig, OAuthConfigView};
use crate::paths;
use crate::paths::require_absolute_text;
use crate::refusal;
use crate::text_map;
use crate::text_map::TextMap;
use crate::transport::{HttpTransportConfig, StdioTransportConfig};

verus! {

/// Authentication for a Streamable HTTP connection.
#[derive(Debug, PartialEq, Eq)]
pub enum HttpAuth {
    /// No HTTP credential.
    Absent,
    /// Resolve a bearer token from an explicit source at connection time.
    Bearer {
        /// Token source.
        source: BearerSource,
    },
    /// OAuth authorization-code flow with PKCE.
    OAuth {
        /// Non-secret OAuth client configuration.
        config: OAuthConfig,
        /// Optional explicit source for a confidential-client secret.
        client_secret: Option<BearerSource>,
    },
}

impl Default for HttpAuth {
    fn default() -> (r: Self)
        ensures
            r == HttpAuth::Absent,
    {
        HttpAuth::Absent
    }
}

/// The contents of an authentication policy.
#[verifier::ext_equal]
pub enum AuthView {
    Absent,
    Bearer { source: SourceView },
    OAuth { config: OAuthConfigView, client_secret: Option<SourceView> },
}

/// The contents of an optional source.
pub open spec fn optional_source(source: Option<BearerSource>) -> Option<SourceView> {
    match source {
        Some(source) => Some(source@),
        None => None,
    }
}

impl View for HttpAuth {
    type V = AuthView;

    open spec fn view(&self) -> AuthView {
        match *self {
            HttpAuth::Absent => AuthView::Absent,
            HttpAuth::Bearer { source } => AuthView::Bearer { source: source@ },
            HttpAuth::OAuth { config, client_secret } => AuthView::OAuth {
                config: config@,
                client_secret: optional_source(client_secret),
            },
        }
    }
}

impl Clone for HttpAuth {
    fn clone(&self) -> (r: Self)
        ensures
            r@ == self@,
    {
        match self {
            HttpAuth::Absent => HttpAuth::Absent,
            HttpAuth::Bearer { source } => HttpAuth::Bearer { source: source.clone() },
            HttpAuth::OAuth { config, client_secret } => HttpAuth::OAuth {
                config: config.clone(),
                client_secret: match client_secret {
                    Some(source) => Some(source.clone()),
                    None => None,
                },
            },
        }
    }
}

/// One endpoint and its credential source, but never a credential value.
#[allow(inconsistent_fields)]
#[derive(Debug, PartialEq, Eq)]
pub enum ConnectionConfig {
    /// Streamable HTTP endpoint.
    Http {
        /// Transport facts.
        transport_config: HttpTransportConfig,
        /// HTTP authentication policy.
        auth: HttpAuth,
    },
    /// Exact stdio process declaration.
    Stdio {
        /// Transport facts.
        transport_config: StdioTransportConfig,
    },
}

/// The contents of a declared connection.
#[verifier::ext_equal]
pub enum DeclarationView {
    Http { url: Seq<char>, headers: Map<Seq<char>, Seq<char>>, auth: AuthView },
    Stdio {
        program: Seq<char>,
        args: Seq<Seq<char>>,
        cwd: Seq<char>,
        inherit_env: Seq<Seq<char>>,
    },
}

impl View for ConnectionConfig {
    type V = DeclarationView;

    open spec fn view(&self) -> DeclarationView {
        match *self {
            ConnectionConfig::Http { transport_config, auth } => DeclarationView::Http {
                url: transport_config.url@,
                headers: headers::texts(transport_config.headers@),
                auth: auth@,
            },
            ConnectionConfig::Stdio { transport_config } => DeclarationView::Stdio {
                program: transport_config.program@,
                args: oauth::all_texts(transport_config.args@),
                cwd: transport_config.cwd@,
                inherit_env: oauth::all_texts(transport_config.inherit_env@),
            },
        }
    }
}

impl Clone for ConnectionConfig {
    fn clone(&self) -> (r: Self)
        ensures
            r@ == self@,
    {
        match self {
            ConnectionConfig::Http { transport_config, auth } => ConnectionConfig::Http {
                transport_config: transport_config.clone(),
                auth: auth.clone(),
            },
            ConnectionConfig::Stdio { transport_config } => ConnectionConfig::Stdio {
                transport_config: transport_config.clone(),
            },
        }
    }
}

impl ConnectionConfig {
    /// HTTP transport facts, when this is an HTTP connection.
    pub fn http(&self) -> (r: Option<(&HttpTransportConfig, &HttpAuth)>)
        ensures
            match *self {
                ConnectionConfig::Http { transport_config, auth } => r == Some(
                    (&transport_config, &auth),
                ),
                ConnectionConfig::Stdio { .. } => r is None,
            },
    {
        match self {
            ConnectionConfig::Http { transport_config, auth } => Some((transport_config, auth)),
            ConnectionConfig::Stdio { .. } => None,
        }
    }

    /// Stdio transport facts, when this is a stdio connection.
    pub fn stdio(&self) -> (r: Option<&StdioTransportConfig>)
        ensures
            match *self {
                ConnectionConfig::Stdio { transport_config } => r == Some(&transport_config),
                ConnectionConfig::Http { .. } => r is None,
            },
    {
        match self {
            ConnectionConfig::Stdio { transport_config } => Some(transport_config),
            ConnectionConfig::Http { .. } => None,
        }
    }
}

/// Complete local registry. Connection names are validated when loaded.
#[derive(Debug, PartialEq, Eq)]
pub struct Registry {
    /// Locally named MCP endpoints.
    pub connections: TextMap<ConnectionConfig>,
}

impl View for Registry {
    type V = Map<Seq<char>, DeclarationView>;

    open spec fn view(&self) -> Map<Seq<char>, DeclarationView> {
        self.connections@.map_values(|config: ConnectionConfig| config@)
    }
}

impl Clone for Registry {
    fn clone(&self) -> (r: Self)
        ensures
            r@ == self@,
    {
        let copy = Registry { connections: self.connections.clone() };
        proof {
            let pairs = self.connections.pairs();
            let copies = copy.connections.pairs();
            assert forall|name: Seq<char>|
                #![trigger copy@.contains_key(name)]
                #![trigger self@.contains_key(name)]
                copy@.contains_key(name) == self@.contains_key(name) && (self@.contains_key(name)
                    ==> copy@[name] == self@[name]) by {
                text_map::lemma_listed_keys(pairs, name);
                text_map::lemma_listed_keys(copies, name);
                if exists|i: int| 0 <= i < pairs.len() && (#[trigger] pairs[i]).0 == name {
                    let i = choose|i: int| 0 <= i < pairs.len() && (#[trigger] pairs[i]).0 == name;
                    assert(copies[i].0 == name);
                    text_map::lemma_listed_at(pairs, i);
                    text_map::lemma_listed_at(copies, i);
                }
            }
            assert(copy@ =~= self@);
        }
        copy
    }
}

impl Default for Registry {
    fn default() -> (r: Self)
        ensures
            r@ == Map::<Seq<char>, DeclarationView>::empty(),
    {
        Registry::new()
    }
}

/// What speaks against inherited environment names.
pub open spec fn inherited_refusal(names: Seq<Seq<char>>) -> Option<ErrorView> {
    refusal::first(Seq::new(names.len(), |i: int| bearer::variable_refusal(names[i])))
}

/// What speaks against the authentication of the connection `name`.
pub open spec fn auth_refusal(name: Seq<char>, auth: AuthView) -> Option<ErrorView> {
    match auth {
        AuthView::Absent => None,
        AuthView::Bearer { source } => bearer::source_refusal(source),
        AuthView::OAuth { config, client_secret } => if config.resource_url.len() == 0
            || config.redirect_uri.len() == 0 {
            Some(
                ErrorView::Configuration(
                    "OAuth connection `"@ + name + "` requires resource-url and redirect-uri"@,
                ),
            )
        } else {
            match client_secret {
                Some(source) => bearer::source_refusal(source),
                None => None,
            }
        },
    }
}

/// What speaks against a stdio declaration.
pub open spec fn stdio_refusal(
    program: Seq<char>,
    cwd: Seq<char>,
    inherit_env: Seq<Seq<char>>,
) -> Option<ErrorView> {
    if !paths::absolute_text(program) {
        Some(paths::not_absolute("stdio program"@))
    } else if !paths::absolute_text(cwd) {
        Some(paths::not_absolute("stdio cwd"@))
    } else {
        inherited_refusal(inherit_env)
    }
}

/// What speaks against the connection `name`.
pub open spec fn connection_refusal(name: Seq<char>, config: DeclarationView) -> Option<
    ErrorView,
> {
    if !identity::connection_name(name) {
        Some(identity::bad_connection_name())
    } else {
        match config {
            DeclarationView::Http { auth, .. } => auth_refusal(name, auth),
            DeclarationView::Stdio { program, cwd, inherit_env, .. } => stdio_refusal(
                program,
                cwd,
                inherit_env,
            ),
        }
    }
}

/// Whether something speaks against the connection `name` of a registry.
pub open spec fn refused(registry: Map<Seq<char>, DeclarationView>, name: Seq<char>) -> bool {
    registry.contains_key(name) && connection_refusal(name, registry[name]) is Some
}

/// What speaks against a registry: the refusal of the first of its names that has one.
pub open spec fn registry_refusal(registry: Map<Seq<char>, DeclarationView>) -> Option<ErrorView> {
    if forall|name: Seq<char>| !#[trigger] refused(registry, name) {
        None
    } else {
        let name = text_map::least(|name: Seq<char>| refused(registry, name));
        connection_refusal(name, registry[name])
    }
}

/// Checks inherited environment names.
fn validate_inherited(names: &Vec<String>) -> (r: Result<(), ClientError>)
    ensures
        refusal::checked(r, inherited_refusal(oauth::all_texts(names@))),
{
    let ghost texts = oauth::all_texts(names@);
    let ghost refusals = Seq::new(texts.len(), |i: int| bearer::variable_refusal(texts[i]));
    let mut i: usize = 0;
    while i < names.len()
        invariant
            i <= names@.len(),
            texts == oauth::all_texts(names@),
            refusals == Seq::new(texts.len(), |i: int| bearer::variable_refusal(texts[i])),
            forall|j: int| 0 <= j < i ==> (#[trigger] refusals[j]) is None,
        decreases names@.len() - i,
    {
        match validate_environment_name(names[i].as_str()) {
            Ok(()) => {},
            Err(error) => {
                proof {
                    refusal::lemma_first_at(refusals, i as int);
                }
                return Err(error);
            },
        }
        i = i + 1;
    }
    proof {
        refusal::lemma_first_none(refusals);
    }
    Ok(())
}

/// Checks the authentication of the connection `name`.
fn validate_auth(name: &str, auth: &HttpAuth) -> (r: Result<(), ClientError>)
    ensures
        refusal::checked(r, auth_refusal(name@, auth@)),
{
    match auth {
        HttpAuth::Absent => Ok(()),
        HttpAuth::Bearer { source } => validate_source(source),
        HttpAuth::OAuth { config, client_secret } => {
            if config.resource_url.as_str().is_empty() || config.redirect_uri.as_str().is_empty() {
                return Err(
                    ClientError::Configuration(
                        joined(
                            "OAuth connection `",
                            name,
                            "` requires resource-url and redirect-uri",
                        ),
                    ),
                );
            }
            match client_secret {
                Some(source) => validate_source(source),
                None => Ok(()),
            }
        },
    }
}

/// Checks a stdio declaration.
fn validate_stdio(config: &StdioTransportConfig) -> (r: Result<(), ClientError>)
    ensures
        refusal::checked(
            r,
            stdio_refusal(config.program@, config.cwd@, oauth::all_texts(config.inherit_env@)),
        ),
{
    require_absolute_text(config.program.as_str(), "stdio program")?;
    require_absolute_text(config.cwd.as_str(), "stdio cwd")?;
    validate_inherited(&config.inherit_env)
}

/// Checks the connection `name`.
fn validate_connection(name: &str, config: &ConnectionConfig) -> (r: Result<(), ClientError>)
    ensures
        refusal::checked(r, connection_refusal(name@, config@)),
{
    match ConnectionId::new(name) {
        Ok(_) => {},
        Err(error) => return Err(error),
    }
    match config {
        ConnectionConfig::Http { auth, .. } => validate_auth(name, auth),
        ConnectionConfig::Stdio { transport_config } => validate_stdio(transport_config),
    }
}

/// Every name of a registry is that of one of its entries.
pub proof fn lemma_entry(registry: Registry, name: Seq<char>)
    requires
        text_map::ascending(registry.connections.pairs()),
    ensures
        registry@.contains_key(name) ==> exists|i: int|
            0 <= i < registry.connections.pairs().len() && (
            #[trigger] registry.connections.pairs()[i]).0 == name && registry@[name]
                == registry.connections.pairs()[i].1@,
{
    let pairs = registry.connections.pairs();
    text_map::lemma_listed_keys(pairs, name);
    if registry@.contains_key(name) {
        let i = choose|i: int| 0 <= i < pairs.len() && (#[trigger] pairs[i]).0 == name;
        text_map::lemma_listed_at(pairs, i);
    }
}

/// The entry that is refused while all before it are not bears the first refused name.
pub proof fn lemma_first_refused(registry: Registry, i: int)
    requires
        text_map::ascending(registry.connections.pairs()),
        0 <= i < registry.connections.pairs().len(),
        connection_refusal(
            registry.connections.pairs()[i].0,
            registry.connections.pairs()[i].1@,
        ) is Some,
        forall|j: int|
            0 <= j < i ==> connection_refusal(
                (#[trigger] registry.connections.pairs()[j]).0,
                registry.connections.pairs()[j].1@,
            ) is None,
    ensures
        registry_refusal(registry@) == connection_refusal(
            registry.connections.pairs()[i].0,
            registry.connections.pairs()[i].1@,
        ),
{
    let pairs = registry.connections.pairs();
    let name = pairs[i].0;
    let failing = |name: Seq<char>| refused(registry@, name);
    text_map::lemma_listed_at(pairs, i);
    assert(refused(registry@, name));
    assert forall|other: Seq<char>| #[trigger] failing(other) implies !text_map::before(
        other,
        name,
    ) by {
        lemma_entry(registry, other);
        let j = choose|j: int|
            0 <= j < pairs.len() && (#[trigger] pairs[j]).0 == other && registry@[other]
                == pairs[j].1@;
        text_map::lemma_irreflexive(name);
        if text_map::before(other, name) {
            if i < j {
                text_map::lemma_transitive(name, other, name);
            }
        }
    }
    assert(text_map::leads(failing, name));
    text_map::lemma_least(failing, name);
}

impl Registry {
    /// An empty registry.
    pub fn new() -> (r: Self)
        ensures
            r.connections@ == Map::<Seq<char>, ConnectionConfig>::empty(),
            r@ == Map::<Seq<char>, DeclarationView>::empty(),
    {
        let registry = Registry { connections: TextMap::new() };
        assert(registry@ =~= Map::<Seq<char>, DeclarationView>::empty());
        registry
    }

    /// Validates names and paths without accessing endpoints or credential sources.
    pub fn validate(&self) -> (r: Result<(), ClientError>)
        ensures
            refusal::checked(r, registry_refusal(self@)),
    {
        let ghost pairs = self.connections.pairs();
        let mut i: usize = 0;
        while i < self.connections.len()
            invariant
                i <= pairs.len(),
                pairs == self.connections.pairs(),
                forall|j: int|
                    0 <= j < i ==> connection_refusal(
                        (#[trigger] pairs[j]).0,
                        pairs[j].1@,
                    ) is None,
            decreases pairs.len() - i,
        {
            let name = self.connections.key(i);
            match validate_connection(name, self.connections.value(i)) {
                Ok(()) => {},
                Err(error) => {
                    proof {
                        lemma_first_refused(*self, i as int);
                    }
                    return Err(error);
                },
            }
            i = i + 1;
        }
        proof {
            assert forall|name: Seq<char>| !#[trigger] refused(self@, name) by {
                lemma_entry(*self, name);
            }
        }
        Ok(())
    }

    /// Selects a connection by its client-owned name.
    pub fn connection(&self, id: &ConnectionId) -> (r: Result<&ConnectionConfig, ClientError>)
        ensures
            r is Ok <==> self.connections@.contains_key(id@),
            r is Ok ==> *r->Ok_0 == self.connections@[id@],
            r is Err ==> r->Err_0@ == ErrorView::Configuration(
                "unknown MCP connection `"@ + id@ + "`"@,
            ),
    {
        match self.connections.get(id.as_str()) {
            Some(config) => Ok(config),
            None => Err(
                ClientError::Configuration(joined("unknown MCP connection `", id.as_str(), "`")),
            ),
        }
    }
}

} // verus!
