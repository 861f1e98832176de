//! Explicit sources of bearer-shaped secrets.

use vstd::prelude::*;
use vstd::string::*;

use crate::error;
use crate::error::{configuration, joined, pair, ClientError, ErrorView};
use crate::json;
use crate::outside;
use crate::outside::value_from_slice;
use crate::paths;
use crate::paths::require_absolute_text;
use crate::refusal;
use crate::secret::SecretString;
use crate::text::characters;

verus! {

/// Explicit source for a bearer-shaped secret.
#[derive(Debug, PartialEq, Eq)]
pub enum BearerSource {
    /// Read one explicitly named process environment variable at use time.
    Environment {
        /// Environment variable name.
        environment: String,
    },
    /// Read one explicitly named JSON file and RFC 6901 pointer at use time.
    JsonFile {
        /// Absolute file path.
        path: String,
        /// JSON pointer selecting a string.
        pointer: String,
    },
}

/// The contents of a source.
#[verifier::ext_equal]
pub enum SourceView {
    Environment { environment: Seq<char> },
    JsonFile { path: Seq<char>, pointer: Seq<char> },
}

impl View for BearerSource {
    type V = SourceView;

    open spec fn view(&self) -> SourceView {
        match *self {
            BearerSource::Environment { environment } => SourceView::Environment {
                environment: environment@,
            },
            BearerSource::JsonFile { path, pointer } => SourceView::JsonFile {
                path: path@,
                pointer: pointer@,
            },
        }
    }
}

impl Clone for BearerSource {
    fn clone(&self) -> (r: Self)
        ensures
            r@ == self@,
    {
        match self {
            BearerSource::Environment { environment } => BearerSource::Environment {
                environment: environment.clone(),
            },
            BearerSource::JsonFile { path, pointer } => BearerSource::JsonFile {
                path: path.clone(),
                pointer: pointer.clone(),
            },
        }
    }
}

/// An environment variable name: uppercase letters, digits and underscores.
pub open spec fn variable_name(name: Seq<char>) -> bool {
    &&& name.len() > 0
    &&& forall|i: int| 0 <= i < name.len() ==> variable_character(#[trigger] name[i])
}

/// A character of an environment variable name.
pub open spec fn variable_character(c: char) -> bool {
    'A' <= c <= 'Z' || '0' <= c <= '9' || c == '_'
}

/// Decides whether a text is an environment variable name.
pub fn is_variable_name(name: &str) -> (r: bool)
    ensures
        r == variable_name(name@),
{
    let letters = characters(name);
    let mut i: usize = 0;
    while i < letters.len()
        invariant
            i <= letters@.len(),
            letters@ == name@,
            forall|j: int| 0 <= j < i ==> variable_character(#[trigger] name@[j]),
        decreases letters@.len() - i,
    {
        let c = letters[i];
        if !(('A' <= c && c <= 'Z') || ('0' <= c && c <= '9') || c == '_') {
            assert(!variable_character(name@[i as int]));
            return false;
        }
        i = i + 1;
    }
    letters.len() > 0
}

/// What speaks against an environment variable name.
pub open spec fn variable_refusal(name: Seq<char>) -> Option<ErrorView> {
    if variable_name(name) {
        None
    } else {
        Some(ErrorView::Configuration("invalid environment name `"@ + name + "`"@))
    }
}

/// Checks an environment variable name.
pub fn validate_environment_name(name: &str) -> (r: Result<(), ClientError>)
    ensures
        refusal::checked(r, variable_refusal(name@)),
{
    if is_variable_name(name) {
        Ok(())
    } else {
        Err(ClientError::Configuration(joined("invalid environment name `", name, "`")))
    }
}

/// What speaks against a credential file.
pub open spec fn credential_file_refusal(path: Seq<char>) -> Option<ErrorView> {
    if paths::absolute_text(path) {
        None
    } else {
        Some(paths::not_absolute("credential JSON file"@))
    }
}

/// What speaks against a declared source.
pub open spec fn source_refusal(source: SourceView) -> Option<ErrorView> {
    match source {
        SourceView::Environment { environment } => variable_refusal(environment),
        SourceView::JsonFile { path, pointer } => if !paths::absolute_text(path) {
            credential_file_refusal(path)
        } else if pointer.len() > 0 && pointer[0] != '/' {
            Some(
                ErrorView::Configuration(
                    "credential JSON pointer must be empty or start with `/`"@,
                ),
            )
        } else {
            None
        },
    }
}

/// Checks a declared source, without reading it.
pub fn validate_source(source: &BearerSource) -> (r: Result<(), ClientError>)
    ensures
        refusal::checked(r, source_refusal(source@)),
{
    match source {
        BearerSource::Environment { environment } => validate_environment_name(
            environment.as_str(),
        ),
        BearerSource::JsonFile { path, pointer } => {
            require_absolute_text(path.as_str(), "credential JSON file")?;
            if !pointer.as_str().is_empty() && pointer.as_str().get_char(0) != '/' {
                return Err(
                    configuration("credential JSON pointer must be empty or start with `/`"),
                );
            }
            Ok(())
        },
    }
}

/// What has to be read for a source.
#[derive(Debug, PartialEq, Eq)]
pub enum SourceRead<'a> {
    /// One environment variable.
    Variable(&'a str),
    /// One file, and the pointer to apply to it.
    File {
        /// Path.
        path: &'a str,
        /// JSON pointer.
        pointer: &'a str,
    },
}

/// What the environment variable `name` gives as a secret.
pub open spec fn variable_secret(name: Seq<char>, value: Option<Seq<char>>) -> Result<
    Seq<char>,
    ErrorView,
> {
    match value {
        None => Err(ErrorView::Configuration("credential environment `"@ + name + "` is absent"@)),
        Some(value) => if value.len() == 0 {
            Err(ErrorView::Configuration("credential environment `"@ + name + "` is empty"@))
        } else {
            Ok(value)
        },
    }
}

/// What a credential file gives as a secret: `found` is nothing where the file is not JSON,
/// and otherwise the string that the pointer selects, if it selects one.
pub open spec fn file_secret(pointer: Seq<char>, found: Option<Option<Seq<char>>>) -> Result<
    Seq<char>,
    ErrorView,
> {
    match found {
        None => Err(ErrorView::Configuration("credential JSON file is malformed"@)),
        Some(None) => Err(
            ErrorView::Configuration(
                "credential JSON pointer `"@ + pointer + "` does not select a string"@,
            ),
        ),
        Some(Some(secret)) => if secret.len() == 0 {
            Err(ErrorView::Configuration("credential JSON value is empty"@))
        } else {
            Ok(secret)
        },
    }
}

/// The string that a pointer selects in the document that bytes are, if they are one.
pub open spec fn string_at(bytes: Seq<u8>, pointer: Seq<char>) -> Option<Option<Seq<char>>> {
    match outside::json_document(bytes) {
        Some(tree) => Some(json::text_of(outside::json_at(tree, pointer))),
        None => None,
    }
}

/// The characters of what was found.
pub open spec fn found_text(found: Option<Option<String>>) -> Option<Option<Seq<char>>> {
    match found {
        Some(found) => Some(error::optional_text(found)),
        None => None,
    }
}

impl BearerSource {
    /// What has to be read to resolve this source.
    pub fn request(&self) -> (r: Result<SourceRead<'_>, ClientError>)
        ensures
            match *self {
                BearerSource::Environment { environment } => {
                    &&& refusal::checked(r, variable_refusal(environment@))
                    &&& r is Ok ==> (r->Ok_0 matches SourceRead::Variable(name) && name@
                        == environment@)
                },
                BearerSource::JsonFile { path, pointer } => {
                    &&& refusal::checked(r, credential_file_refusal(path@))
                    &&& r is Ok ==> (r->Ok_0 matches SourceRead::File { path: p, pointer: q } && p@
                        == path@ && q@ == pointer@)
                },
            },
    {
        match self {
            BearerSource::Environment { environment } => {
                validate_environment_name(environment.as_str())?;
                Ok(SourceRead::Variable(environment.as_str()))
            },
            BearerSource::JsonFile { path, pointer } => {
                require_absolute_text(path.as_str(), "credential JSON file")?;
                Ok(SourceRead::File { path: path.as_str(), pointer: pointer.as_str() })
            },
        }
    }
}

/// The secret in an environment variable that was looked up.
pub fn resolve_variable(name: &str, value: Option<String>) -> (r: Result<SecretString, ClientError>)
    ensures
        error::outcome(r) == variable_secret(name@, error::optional_text(value)),
{
    match value {
        None => Err(
            ClientError::Configuration(joined("credential environment `", name, "` is absent")),
        ),
        Some(value) => if value.as_str().is_empty() {
            Err(ClientError::Configuration(joined("credential environment `", name, "` is empty")))
        } else {
            Ok(SecretString::new(value))
        },
    }
}

/// The secret in a credential file that was read, or could not be read for a reason.
pub open spec fn resolved_file(pointer: Seq<char>, content: Result<Vec<u8>, String>) -> Result<
    Seq<char>,
    ErrorView,
> {
    match content {
        Err(reason) => Err(ErrorView::Configuration("reading credential JSON file: "@ + reason@)),
        Ok(bytes) => file_secret(pointer, string_at(bytes@, pointer)),
    }
}

/// The secret in a credential file that was read, or could not be read for a reason.
pub fn resolve_file(pointer: &str, content: Result<Vec<u8>, String>) -> (r: Result<
    SecretString,
    ClientError,
>)
    ensures
        error::outcome(r) == resolved_file(pointer@, content),
{
    let bytes = match content {
        Ok(bytes) => bytes,
        Err(reason) => return Err(
            ClientError::Configuration(pair("reading credential JSON file: ", reason.as_str())),
        ),
    };
    match value_from_slice(bytes.as_slice()) {
        None => select_secret(pointer, None),
        Some(value) => match value.pointer(pointer) {
            None => select_secret(pointer, Some(None)),
            Some(selected) => match selected.as_str() {
                None => select_secret(pointer, Some(None)),
                Some(secret) => select_secret(pointer, Some(Some(secret.to_owned()))),
            },
        },
    }
}

/// The secret in a credential file: `found` is nothing where the file is not JSON, and
/// otherwise the string that the pointer selects, if it selects one.
pub fn select_secret(pointer: &str, found: Option<Option<String>>) -> (r: Result<
    SecretString,
    ClientError,
>)
    ensures
        error::outcome(r) == file_secret(pointer@, found_text(found)),
{
    match found {
        None => Err(configuration("credential JSON file is malformed")),
        Some(None) => Err(
            ClientError::Configuration(
                joined("credential JSON pointer `", pointer, "` does not select a string"),
            ),
        ),
        Some(Some(secret)) => if secret.as_str().is_empty() {
            Err(configuration("credential JSON value is empty"))
        } else {
            Ok(SecretString::new(secret))
        },
    }
}

} // verus!
