//! Local paths.
//!
//! A path is a sequence of bytes with `/` between its components, as on Unix.

use vstd::prelude::*;
use vstd::string::*;
use vstd::utf8::*;

use crate::custody::{FileCredentialStore, FileStateStore};
use crate::error;
use crate::error::{pair, ClientError, ErrorView};
use crate::identity::ConnectionId;
use crate::refusal;

verus! {

/// A path.
#[derive(Debug, PartialEq, Eq)]
pub struct UnixPath {
    /// The bytes of the path.
    pub bytes: Vec<u8>,
}

impl View for UnixPath {
    type V = Seq<u8>;

    open spec fn view(&self) -> Seq<u8> {
        self.bytes@
    }
}

impl Clone for UnixPath {
    fn clone(&self) -> (r: Self)
        ensures
            r@ == self@,
    {
        self.copy()
    }
}

/// A path from the root.
pub open spec fn absolute(path: Seq<u8>) -> bool {
    path.len() > 0 && path[0] == 0x2f
}

/// A path from the root, as text.
pub open spec fn absolute_text(path: Seq<char>) -> bool {
    path.len() > 0 && path[0] == '/'
}

/// `part` seen from `base`.
pub open spec fn joined_path(base: Seq<u8>, part: Seq<u8>) -> Seq<u8> {
    if absolute(part) {
        part
    } else if base.len() == 0 || base.last() == 0x2f {
        base + part
    } else {
        base.push(0x2f) + part
    }
}

/// The refusal of a path that is not from the root.
pub open spec fn not_absolute(kind: Seq<char>) -> ErrorView {
    ErrorView::Configuration(kind + " path must be absolute"@)
}

impl UnixPath {
    /// The path that a text spells.
    pub fn from_text(value: &str) -> (r: Self)
        ensures
            r@ == encode_utf8(value@),
    {
        UnixPath { bytes: value.as_bytes_vec() }
    }

    /// A copy.
    pub fn copy(&self) -> (r: Self)
        ensures
            r@ == self@,
    {
        let mut bytes: Vec<u8> = Vec::new();
        bytes.extend_from_slice(self.bytes.as_slice());
        assert(bytes@ =~= self@);
        UnixPath { bytes }
    }

    /// Decides whether this is a path from the root.
    pub fn is_absolute(&self) -> (r: bool)
        ensures
            r == absolute(self@),
    {
        self.bytes.len() > 0 && self.bytes[0] == 0x2f
    }

    /// `part` seen from this path.
    pub fn join(&self, part: &str) -> (r: Self)
        ensures
            r@ == joined_path(self@, encode_utf8(part@)),
    {
        let part = UnixPath::from_text(part);
        if part.is_absolute() {
            return part;
        }
        let mut bytes = self.copy().bytes;
        let count: usize = bytes.len();
        if count > 0 && bytes[count - 1] != 0x2f {
            bytes.push(0x2f);
        }
        let ghost front = bytes@;
        bytes.extend_from_slice(part.bytes.as_slice());
        assert(bytes@ =~= front + part@);
        UnixPath { bytes }
    }
}

/// Checks that a path is from the root.
pub fn require_absolute(path: &UnixPath, kind: &str) -> (r: Result<(), ClientError>)
    ensures
        refusal::checked(
            r,
            if absolute(path@) {
                None
            } else {
                Some(not_absolute(kind@))
            },
        ),
{
    if path.is_absolute() {
        Ok(())
    } else {
        Err(ClientError::Configuration(pair(kind, " path must be absolute")))
    }
}

/// Checks that the path that a text spells is from the root.
pub fn require_absolute_text(path: &str, kind: &str) -> (r: Result<(), ClientError>)
    ensures
        refusal::checked(
            r,
            if absolute_text(path@) {
                None
            } else {
                Some(not_absolute(kind@))
            },
        ),
{
    if !path.is_empty() && path.get_char(0) == '/' {
        Ok(())
    } else {
        Err(ClientError::Configuration(pair(kind, " path must be absolute")))
    }
}

/// The environment that paths are discovered in, with each variable's value where it is set.
#[derive(Debug, PartialEq, Eq)]
pub struct Environment {
    /// `XDG_CONFIG_HOME`.
    pub config_home: Option<UnixPath>,
    /// `XDG_STATE_HOME`.
    pub state_home: Option<UnixPath>,
    /// `HOME`.
    pub home: Option<UnixPath>,
}

/// The bytes of an optional path.
pub open spec fn optional_path(path: Option<UnixPath>) -> Option<Seq<u8>> {
    match path {
        Some(path) => Some(path@),
        None => None,
    }
}

/// The directory that a variable names or, where it is not set, a directory below home.
pub open spec fn xdg_root(
    variable: Seq<char>,
    fallback: Seq<char>,
    value: Option<Seq<u8>>,
    home: Option<Seq<u8>>,
) -> Result<Seq<u8>, ErrorView> {
    match value {
        Some(path) => if absolute(path) {
            Ok(path)
        } else {
            Err(not_absolute(variable))
        },
        None => match home {
            None => Err(ErrorView::Configuration(variable + " and HOME are both absent"@)),
            Some(home) => if absolute(home) {
                Ok(joined_path(home, encode_utf8(fallback)))
            } else {
                Err(not_absolute("HOME"@))
            },
        },
    }
}

/// Selects the directory that a variable names or a directory below home.
pub fn xdg_or_home(
    variable: &str,
    fallback: &str,
    value: &Option<UnixPath>,
    home: &Option<UnixPath>,
) -> (r: Result<UnixPath, ClientError>)
    ensures
        error::outcome(r) == xdg_root(
            variable@,
            fallback@,
            optional_path(*value),
            optional_path(*home),
        ),
{
    if let Some(path) = value {
        require_absolute(path, variable)?;
        return Ok(path.copy());
    }
    match home {
        Some(home) => {
            require_absolute(home, "HOME")?;
            Ok(home.join(fallback))
        },
        None => Err(ClientError::Configuration(pair(variable, " and HOME are both absent"))),
    }
}

/// Conventional local paths shared by the standalone CLI and embedded consumers.
#[derive(Debug, PartialEq, Eq)]
pub struct LocalPaths {
    /// Strict registry document.
    pub registry: UnixPath,
    /// Private state root containing credentials and authorization sessions.
    pub state: UnixPath,
}

/// The bytes of local paths.
#[verifier::ext_equal]
pub struct PathsView {
    pub registry: Seq<u8>,
    pub state: Seq<u8>,
}

impl View for LocalPaths {
    type V = PathsView;

    open spec fn view(&self) -> PathsView {
        PathsView { registry: self.registry@, state: self.state@ }
    }
}

impl Clone for LocalPaths {
    fn clone(&self) -> (r: Self)
        ensures
            r@ == self@,
    {
        LocalPaths { registry: self.registry.clone(), state: self.state.clone() }
    }
}

/// Where the conventional paths are.
pub open spec fn conventional_paths(
    config_home: Option<Seq<u8>>,
    state_home: Option<Seq<u8>>,
    home: Option<Seq<u8>>,
) -> Result<PathsView, ErrorView> {
    match xdg_root("XDG_CONFIG_HOME"@, ".config"@, config_home, home) {
        Err(error) => Err(error),
        Ok(config) => match xdg_root("XDG_STATE_HOME"@, ".local/state"@, state_home, home) {
            Err(error) => Err(error),
            Ok(state) => Ok(
                PathsView {
                    registry: joined_path(config, encode_utf8("b10x/mcp.toml"@)),
                    state: joined_path(state, encode_utf8("b10x/mcp"@)),
                },
            ),
        },
    }
}

/// Where credentials are.
pub open spec fn credential_directory(state: Seq<u8>) -> Seq<u8> {
    joined_path(state, encode_utf8("oauth"@))
}

/// Where the authorization sessions of a connection are.
pub open spec fn session_directory(state: Seq<u8>, id: Seq<char>) -> Seq<u8> {
    joined_path(joined_path(state, encode_utf8("authorization"@)), encode_utf8(id))
}

impl LocalPaths {
    /// Resolves XDG paths. No directory or file is created.
    pub fn discover(environment: &Environment) -> (r: Result<Self, ClientError>)
        ensures
            error::outcome(r) == conventional_paths(
                optional_path(environment.config_home),
                optional_path(environment.state_home),
                optional_path(environment.home),
            ),
    {
        let config_root = xdg_or_home(
            "XDG_CONFIG_HOME",
            ".config",
            &environment.config_home,
            &environment.home,
        )?;
        let state_root = xdg_or_home(
            "XDG_STATE_HOME",
            ".local/state",
            &environment.state_home,
            &environment.home,
        )?;
        Ok(
            LocalPaths {
                registry: config_root.join("b10x/mcp.toml"),
                state: state_root.join("b10x/mcp"),
            },
        )
    }

    /// Credential store scoped to one validated connection name.
    pub fn credentials(&self, id: &ConnectionId) -> (r: FileCredentialStore)
        ensures
            r.directory() == credential_directory(self.state@),
            r.owner() == id@,
    {
        FileCredentialStore::new(self.state.join("oauth"), id.clone())
    }

    /// Authorization state store scoped to one validated connection name.
    pub fn authorization_states(&self, id: &ConnectionId) -> (r: FileStateStore)
        ensures
            r@ == session_directory(self.state@, id@),
    {
        FileStateStore::new(self.state.join("authorization").join(id.as_str()))
    }
}

} // verus!
