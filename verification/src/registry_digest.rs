//! The canonical encoding of a registry and the digest taken over it.

use vstd::prelude::*;
use vstd::string::*;
use vstd::utf8::*;

use crate::bearer::BearerSource;
use crate::canonical;
use crate::canonical::{digest_hex, push_json, push_optional, push_string, push_text};
use crate::error;
use crate::error::ClientError;
use crate::json::{Json, JsonTree};
use crate::oauth::OAuthConfig;
use crate::outside;
use crate::registry::{ConnectionConfig, HttpAuth, Registry};
use crate::text_map::TextMap;
use crate::transport::{HttpTransportConfig, StdioTransportConfig};

verus! {

/// The encoding of a list of strings.
pub open spec fn strings_bytes(items: Seq<String>) -> Seq<u8> {
    encode_utf8("["@) + canonical::comma_separated(
        Seq::new(items.len(), |i: int| canonical::string_bytes(items[i]@)),
    ) + encode_utf8("]"@)
}

/// The encoding of one header.
pub open spec fn header_bytes(name: Seq<char>, value: Seq<char>) -> Seq<u8> {
    canonical::string_bytes(name) + encode_utf8(":"@) + canonical::string_bytes(value)
}

/// The encoding of headers.
pub open spec fn headers_bytes(pairs: Seq<(Seq<char>, String)>) -> Seq<u8> {
    encode_utf8("{"@) + canonical::comma_separated(
        Seq::new(pairs.len(), |i: int| header_bytes(pairs[i].0, pairs[i].1@)),
    ) + encode_utf8("}"@)
}

/// The members that encode a secret source.
pub open spec fn source_members(source: BearerSource) -> Seq<u8> {
    match source {
        BearerSource::Environment { environment } => encode_utf8(
            "\"source\":\"environment\",\"environment\":"@,
        ) + canonical::string_bytes(environment@),
        BearerSource::JsonFile { path, pointer } => encode_utf8(
            "\"source\":\"json-file\",\"path\":"@,
        ) + canonical::string_bytes(path@) + encode_utf8(",\"pointer\":"@)
            + canonical::string_bytes(pointer@),
    }
}

/// The members that encode the addresses and the name of an OAuth client.
pub open spec fn oauth_client_members(config: OAuthConfig) -> Seq<u8> {
    encode_utf8("\"resource-url\":"@) + canonical::string_bytes(config.resource_url@) + encode_utf8(
        ",\"redirect-uri\":"@,
    ) + canonical::string_bytes(config.redirect_uri@) + encode_utf8(",\"client-name\":"@)
        + canonical::string_bytes(config.client_name@)
}

/// The members that encode the registration of an OAuth client.
pub open spec fn oauth_registration_members(config: OAuthConfig) -> Seq<u8> {
    encode_utf8(",\"client-id\":"@) + canonical::optional_bytes(
        error::optional_text(config.client_id),
    ) + encode_utf8(",\"client-metadata-url\":"@) + canonical::optional_bytes(
        error::optional_text(config.client_metadata_url),
    ) + encode_utf8(",\"scopes\":"@) + strings_bytes(config.scopes@) + encode_utf8(
        ",\"application-type\":"@,
    ) + canonical::string_bytes(config.application_type@)
}

/// The members that encode an OAuth configuration.
pub open spec fn oauth_members(config: OAuthConfig) -> Seq<u8> {
    oauth_client_members(config) + oauth_registration_members(config)
}

/// The encoding of an optional secret source.
pub open spec fn optional_source_bytes(source: Option<BearerSource>) -> Seq<u8> {
    match source {
        Some(source) => encode_utf8("{"@) + source_members(source) + encode_utf8("}"@),
        None => outside::json_bytes(JsonTree::Null),
    }
}

/// The encoding of an authentication policy.
pub open spec fn auth_bytes(auth: HttpAuth) -> Seq<u8> {
    match auth {
        HttpAuth::Absent => encode_utf8("{\"kind\":\"none\"}"@),
        HttpAuth::Bearer { source } => encode_utf8("{\"kind\":\"bearer\","@) + source_members(
            source,
        ) + encode_utf8("}"@),
        HttpAuth::OAuth { config, client_secret } => encode_utf8("{\"kind\":\"oauth\","@)
            + oauth_members(config) + encode_utf8(",\"client_secret\":"@) + optional_source_bytes(
            client_secret,
        ) + encode_utf8("}"@),
    }
}

/// The encoding of an HTTP connection.
pub open spec fn http_bytes(config: HttpTransportConfig, auth: HttpAuth) -> Seq<u8> {
    encode_utf8("{\"transport\":\"http\",\"url\":"@) + canonical::string_bytes(config.url@)
        + encode_utf8(",\"headers\":"@) + headers_bytes(config.headers.pairs()) + encode_utf8(
        ",\"auth\":"@,
    ) + auth_bytes(auth) + encode_utf8("}"@)
}

/// The encoding of a stdio connection.
pub open spec fn stdio_bytes(config: StdioTransportConfig) -> Seq<u8> {
    encode_utf8("{\"transport\":\"stdio\",\"program\":"@) + canonical::string_bytes(config.program@)
        + encode_utf8(",\"args\":"@) + strings_bytes(config.args@) + encode_utf8(",\"cwd\":"@)
        + canonical::string_bytes(config.cwd@) + encode_utf8(",\"inherit-env\":"@) + strings_bytes(
        config.inherit_env@,
    ) + encode_utf8("}"@)
}

/// The encoding of a connection.
pub open spec fn connection_bytes(config: ConnectionConfig) -> Seq<u8> {
    match config {
        ConnectionConfig::Http { transport_config, auth } => http_bytes(transport_config, auth),
        ConnectionConfig::Stdio { transport_config } => stdio_bytes(transport_config),
    }
}

/// The encoding of a named connection.
pub open spec fn entry_bytes(name: Seq<char>, config: ConnectionConfig) -> Seq<u8> {
    canonical::string_bytes(name) + encode_utf8(":"@) + connection_bytes(config)
}

/// The canonical encoding that a registry's digest is taken over.
pub open spec fn registry_bytes(pairs: Seq<(Seq<char>, ConnectionConfig)>) -> Seq<u8> {
    encode_utf8("{\"connections\":{"@) + canonical::comma_separated(
        Seq::new(pairs.len(), |i: int| entry_bytes(pairs[i].0, pairs[i].1)),
    ) + encode_utf8("}}"@)
}

/// Appends the encoding of a list of strings.
fn push_strings(out: &mut Vec<u8>, items: &Vec<String>)
    ensures
        final(out)@ == old(out)@ + strings_bytes(items@),
{
    push_text(out, "[");
    let ghost head = out@;
    let ghost parts = Seq::new(items@.len(), |i: int| canonical::string_bytes(items@[i]@));
    let mut i: usize = 0;
    while i < items.len()
        invariant
            i <= items@.len(),
            parts == Seq::new(items@.len(), |i: int| canonical::string_bytes(items@[i]@)),
            out@ == head + canonical::comma_separated(parts.take(i as int)),
        decreases items@.len() - i,
    {
        if i > 0 {
            push_text(out, ",");
        }
        push_string(out, items[i].as_str());
        proof {
            assert(parts.take(i + 1).drop_last() =~= parts.take(i as int));
            assert(out@ =~= head + canonical::comma_separated(parts.take(i + 1)));
        }
        i = i + 1;
    }
    assert(parts.take(i as int) =~= parts);
    push_text(out, "]");
    assert(out@ =~= old(out)@ + strings_bytes(items@));
}

/// Appends the encoding of headers.
fn push_headers(out: &mut Vec<u8>, headers: &TextMap<String>)
    ensures
        final(out)@ == old(out)@ + headers_bytes(headers.pairs()),
{
    push_text(out, "{");
    let ghost head = out@;
    let ghost pairs = headers.pairs();
    let ghost parts = Seq::new(pairs.len(), |i: int| header_bytes(pairs[i].0, pairs[i].1@));
    let mut i: usize = 0;
    while i < headers.len()
        invariant
            i <= pairs.len(),
            pairs == headers.pairs(),
            parts == Seq::new(pairs.len(), |i: int| header_bytes(pairs[i].0, pairs[i].1@)),
            out@ == head + canonical::comma_separated(parts.take(i as int)),
        decreases pairs.len() - i,
    {
        if i > 0 {
            push_text(out, ",");
        }
        push_string(out, headers.key(i));
        push_text(out, ":");
        push_string(out, headers.value(i).as_str());
        proof {
            assert(parts.take(i + 1).drop_last() =~= parts.take(i as int));
            assert(out@ =~= head + canonical::comma_separated(parts.take(i + 1)));
        }
        i = i + 1;
    }
    assert(parts.take(i as int) =~= parts);
    push_text(out, "}");
    assert(out@ =~= old(out)@ + headers_bytes(headers.pairs()));
}

/// Appends the members that encode a secret source.
fn push_source(out: &mut Vec<u8>, source: &BearerSource)
    ensures
        final(out)@ == old(out)@ + source_members(*source),
{
    broadcast use canonical::lemma_append;

    match source {
        BearerSource::Environment { environment } => {
            push_text(out, "\"source\":\"environment\",\"environment\":");
            push_string(out, environment.as_str());
        },
        BearerSource::JsonFile { path, pointer } => {
            push_text(out, "\"source\":\"json-file\",\"path\":");
            push_string(out, path.as_str());
            push_text(out, ",\"pointer\":");
            push_string(out, pointer.as_str());
        },
    }
}

/// Appends the members that encode the addresses and the name of an OAuth client.
fn push_oauth_client(out: &mut Vec<u8>, config: &OAuthConfig)
    ensures
        final(out)@ == old(out)@ + oauth_client_members(*config),
{
    broadcast use canonical::lemma_append;

    push_text(out, "\"resource-url\":");
    push_string(out, config.resource_url.as_str());
    push_text(out, ",\"redirect-uri\":");
    push_string(out, config.redirect_uri.as_str());
    push_text(out, ",\"client-name\":");
    push_string(out, config.client_name.as_str());
}

/// Appends the members that encode an OAuth configuration.
fn push_oauth(out: &mut Vec<u8>, config: &OAuthConfig)
    ensures
        final(out)@ == old(out)@ + oauth_members(*config),
{
    broadcast use canonical::lemma_append;

    push_oauth_client(out, config);
    push_text(out, ",\"client-id\":");
    push_optional(out, &config.client_id);
    push_text(out, ",\"client-metadata-url\":");
    push_optional(out, &config.client_metadata_url);
    push_text(out, ",\"scopes\":");
    push_strings(out, &config.scopes);
    push_text(out, ",\"application-type\":");
    push_string(out, config.application_type.as_str());
}

/// Appends the encoding of an optional secret source.
fn push_optional_source(out: &mut Vec<u8>, source: &Option<BearerSource>)
    ensures
        final(out)@ == old(out)@ + optional_source_bytes(*source),
{
    broadcast use canonical::lemma_append;

    match source {
        Some(source) => {
            push_text(out, "{");
            push_source(out, source);
            push_text(out, "}");
        },
        None => {
            push_json(out, &Json::Null);
        },
    }
}

/// Appends the encoding of an authentication policy.
fn push_auth(out: &mut Vec<u8>, auth: &HttpAuth)
    ensures
        final(out)@ == old(out)@ + auth_bytes(*auth),
{
    broadcast use canonical::lemma_append;

    match auth {
        HttpAuth::Absent => {
            push_text(out, "{\"kind\":\"none\"}");
        },
        HttpAuth::Bearer { source } => {
            push_text(out, "{\"kind\":\"bearer\",");
            push_source(out, source);
            push_text(out, "}");
        },
        HttpAuth::OAuth { config, client_secret } => {
            push_text(out, "{\"kind\":\"oauth\",");
            push_oauth(out, config);
            push_text(out, ",\"client_secret\":");
            push_optional_source(out, client_secret);
            push_text(out, "}");
        },
    }
}

/// Appends the encoding of an HTTP connection.
fn push_http(out: &mut Vec<u8>, config: &HttpTransportConfig, auth: &HttpAuth)
    ensures
        final(out)@ == old(out)@ + http_bytes(*config, *auth),
{
    broadcast use canonical::lemma_append;

    push_text(out, "{\"transport\":\"http\",\"url\":");
    push_string(out, config.url.as_str());
    push_text(out, ",\"headers\":");
    push_headers(out, &config.headers);
    push_text(out, ",\"auth\":");
    push_auth(out, auth);
    push_text(out, "}");
}

/// Appends the encoding of a stdio connection.
fn push_stdio(out: &mut Vec<u8>, config: &StdioTransportConfig)
    ensures
        final(out)@ == old(out)@ + stdio_bytes(*config),
{
    broadcast use canonical::lemma_append;

    push_text(out, "{\"transport\":\"stdio\",\"program\":");
    push_string(out, config.program.as_str());
    push_text(out, ",\"args\":");
    push_strings(out, &config.args);
    push_text(out, ",\"cwd\":");
    push_string(out, config.cwd.as_str());
    push_text(out, ",\"inherit-env\":");
    push_strings(out, &config.inherit_env);
    push_text(out, "}");
}

/// Appends the encoding of a connection.
fn push_connection(out: &mut Vec<u8>, config: &ConnectionConfig)
    ensures
        final(out)@ == old(out)@ + connection_bytes(*config),
{
    match config {
        ConnectionConfig::Http { transport_config, auth } => push_http(out, transport_config, auth),
        ConnectionConfig::Stdio { transport_config } => push_stdio(out, transport_config),
    }
}

impl Registry {
    /// The canonical encoding of this registry.
    pub fn canonical(&self) -> (r: Vec<u8>)
        ensures
            r@ == registry_bytes(self.connections.pairs()),
    {
        let mut out: Vec<u8> = Vec::new();
        push_text(&mut out, "{\"connections\":{");
        let ghost head = out@;
        let ghost pairs = self.connections.pairs();
        let ghost parts = Seq::new(pairs.len(), |i: int| entry_bytes(pairs[i].0, pairs[i].1));
        let mut i: usize = 0;
        while i < self.connections.len()
            invariant
                i <= pairs.len(),
                pairs == self.connections.pairs(),
                parts == Seq::new(pairs.len(), |i: int| entry_bytes(pairs[i].0, pairs[i].1)),
                out@ == head + canonical::comma_separated(parts.take(i as int)),
            decreases pairs.len() - i,
        {
            if i > 0 {
                push_text(&mut out, ",");
            }
            push_string(&mut out, self.connections.key(i));
            push_text(&mut out, ":");
            push_connection(&mut out, self.connections.value(i));
            proof {
                assert(parts.take(i + 1).drop_last() =~= parts.take(i as int));
                assert(out@ =~= head + canonical::comma_separated(parts.take(i + 1)));
            }
            i = i + 1;
        }
        assert(parts.take(i as int) =~= parts);
        push_text(&mut out, "}}");
        assert(out@ =~= registry_bytes(self.connections.pairs()));
        out
    }

    /// Stable digest used as evidence of what a run was configured with.
    pub fn sha256(&self) -> (r: Result<String, ClientError>)
        ensures
            r is Ok,
            r->Ok_0@ == canonical::digest_text(registry_bytes(self.connections.pairs())),
            r->Ok_0@.len() == 64,
    {
        let canonical = self.canonical();
        Ok(digest_hex(canonical.as_slice()))
    }
}

} // verus!
