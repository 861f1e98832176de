//! Transport facts and buffered HTTP exchanges.

use vstd::prelude::*;

use crate::text_map::TextMap;

verus! {

/// Streamable HTTP connection facts. Authentication material is supplied separately at call
/// time.
#[derive(Debug, PartialEq, Eq)]
pub struct HttpTransportConfig {
    /// Absolute MCP endpoint.
    pub url: String,
    /// Additional non-credential headers.
    pub headers: TextMap<String>,
}

/// Exact stdio process declaration.
#[derive(Debug, PartialEq, Eq)]
pub struct StdioTransportConfig {
    /// Absolute executable path. No PATH lookup and no shell expansion occur.
    pub program: String,
    /// Exact argument vector.
    pub args: Vec<String>,
    /// Explicit working directory.
    pub cwd: String,
    /// Environment variable names copied from the parent when present.
    pub inherit_env: Vec<String>,
}

/// HTTP request used by MCP and OAuth consumer adapters.
#[derive(Debug, PartialEq, Eq)]
pub struct HttpRequest {
    /// Uppercase HTTP method.
    pub method: String,
    /// Absolute URL.
    pub url: String,
    /// Header names and values.
    pub headers: TextMap<String>,
    /// Buffered request body.
    pub body: Vec<u8>,
}

/// Buffered bounded HTTP response used by OAuth and simple adapters.
#[derive(Debug, PartialEq, Eq)]
pub struct HttpResponse {
    /// Status code.
    pub status: u16,
    /// Response headers.
    pub headers: TextMap<String>,
    /// Complete bounded body.
    pub body: Vec<u8>,
}

impl Clone for HttpTransportConfig {
    fn clone(&self) -> (r: Self)
        ensures
            r.url == self.url,
            r.headers.pairs() == self.headers.pairs(),
    {
        HttpTransportConfig { url: self.url.clone(), headers: self.headers.clone() }
    }
}

impl Clone for StdioTransportConfig {
    fn clone(&self) -> (r: Self)
        ensures
            r.program == self.program,
            r.args@ == self.args@,
            r.cwd == self.cwd,
            r.inherit_env@ == self.inherit_env@,
    {
        StdioTransportConfig {
            program: self.program.clone(),
            args: self.args.clone(),
            cwd: self.cwd.clone(),
            inherit_env: self.inherit_env.clone(),
        }
    }
}

impl Clone for HttpRequest {
    fn clone(&self) -> (r: Self)
        ensures
            r.method == self.method,
            r.url == self.url,
            r.headers.pairs() == self.headers.pairs(),
            r.body@ == self.body@,
    {
        HttpRequest {
            method: self.method.clone(),
            url: self.url.clone(),
            headers: self.headers.clone(),
            body: self.body.clone(),
        }
    }
}

impl Clone for HttpResponse {
    fn clone(&self) -> (r: Self)
        ensures
            r.status == self.status,
            r.headers.pairs() == self.headers.pairs(),
            r.body@ == self.body@,
    {
        HttpResponse {
            status: self.status,
            headers: self.headers.clone(),
            body: self.body.clone(),
        }
    }
}

} // verus!
