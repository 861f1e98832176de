//! Owner-only files that keep OAuth documents, as decisions around a file system.

use vstd::prelude::*;
use vstd::string::*;
use vstd::utf8::*;

use crate::canonical;
use crate::canonical::digest_hex;
use crate::custody_laws;
use crate::error::{pair, ClientError, ErrorView};
use crate::identity::ConnectionId;
use crate::outside;
use crate::paths;
use crate::paths::UnixPath;
use crate::refusal;
use crate::secret::SecretString;
use crate::text;
use crate::text::decimal_text;

verus! {

/// Mode of a directory that only its owner may enter.
pub const OWNER_DIRECTORY: u32 = 0o700;

/// Mode of a file that only its owner may read.
pub const OWNER_FILE: u32 = 0o600;

/// What reading a file gave.
pub enum FileRead {
    /// Its text.
    Text(String),
    /// There is no such file.
    Missing,
    /// A failure, for a reason.
    Failed(String),
}

/// What removing a file gave.
#[derive(Debug, PartialEq, Eq)]
pub enum FileRemoval {
    /// It was removed.
    Removed,
    /// There is no such file.
    Missing,
    /// A failure, for a reason.
    Failed(String),
}

/// What a read gives a store, where failures are told with `what`.
pub open spec fn read_outcome(what: Seq<char>, read: FileRead) -> Result<
    Option<Seq<char>>,
    ErrorView,
> {
    match read {
        FileRead::Text(text) => Ok(Some(text@)),
        FileRead::Missing => Ok(None),
        FileRead::Failed(reason) => Err(ErrorView::Configuration(what + reason@)),
    }
}

/// A document that was loaded, seen through its views.
pub open spec fn loaded(r: Result<Option<SecretString>, ClientError>) -> Result<
    Option<Seq<char>>,
    ErrorView,
> {
    match r {
        Ok(Some(secret)) => Ok(Some(secret@)),
        Ok(None) => Ok(None),
        Err(error) => Err(error@),
    }
}

/// Takes custody of what a read gave.
fn load_document(what: &str, read: FileRead) -> (r: Result<Option<SecretString>, ClientError>)
    ensures
        loaded(r) == read_outcome(what@, read),
{
    match read {
        FileRead::Text(text) => Ok(Some(SecretString::new(text))),
        FileRead::Missing => Ok(None),
        FileRead::Failed(reason) => Err(ClientError::Configuration(pair(what, reason.as_str()))),
    }
}

/// What speaks against a removal.
pub open spec fn removal_refusal(removal: FileRemoval) -> Option<ErrorView> {
    match removal {
        FileRemoval::Failed(reason) => Some(
            ErrorView::Configuration("removing private state: "@ + reason@),
        ),
        _ => None,
    }
}

/// Reports a removal: a file that was never there counts as removed.
pub fn remove_if_present(removal: FileRemoval) -> (r: Result<(), ClientError>)
    ensures
        refusal::checked(r, removal_refusal(removal)),
{
    match removal {
        FileRemoval::Failed(reason) => Err(
            ClientError::Configuration(pair("removing private state: ", reason.as_str())),
        ),
        _ => Ok(()),
    }
}

/// How far an atomic owner-only write has come.
#[derive(Debug, Clone, Copy, PartialEq, Eq, Structural)]
pub enum WriteStep {
    /// The directory has to be there.
    CreateDirectory,
    /// Only the owner may enter the directory.
    RestrictDirectory,
    /// The document has to be in the temporary file.
    WriteTemporary,
    /// Only the owner may read the temporary file.
    RestrictTemporary,
    /// The temporary file has to take the place of the target.
    Commit,
    /// Nothing is left.
    Done,
}

impl WriteStep {
    /// The step after this one.
    pub open spec fn following(self) -> WriteStep {
        match self {
            WriteStep::CreateDirectory => WriteStep::RestrictDirectory,
            WriteStep::RestrictDirectory => WriteStep::WriteTemporary,
            WriteStep::WriteTemporary => WriteStep::RestrictTemporary,
            WriteStep::RestrictTemporary => WriteStep::Commit,
            WriteStep::Commit => WriteStep::Done,
            WriteStep::Done => WriteStep::Done,
        }
    }

    /// What a failure of this step is told with.
    pub open spec fn complaint(self) -> Seq<char> {
        match self {
            WriteStep::CreateDirectory => "creating private state: "@,
            WriteStep::RestrictDirectory => "setting private state permissions: "@,
            WriteStep::WriteTemporary => "writing private state: "@,
            WriteStep::RestrictTemporary => "setting private state permissions: "@,
            WriteStep::Commit => "committing private state: "@,
            WriteStep::Done => ""@,
        }
    }
}

/// An atomic owner-only write in progress.
#[derive(Debug, PartialEq, Eq)]
pub struct PrivateWrite {
    directory: UnixPath,
    temporary: UnixPath,
    target: UnixPath,
    step: WriteStep,
}

/// The contents of an atomic owner-only write in progress.
#[verifier::ext_equal]
pub struct PrivateWriteView {
    pub directory: Seq<u8>,
    pub temporary: Seq<u8>,
    pub target: Seq<u8>,
    pub step: WriteStep,
}

impl View for PrivateWrite {
    type V = PrivateWriteView;

    closed spec fn view(&self) -> PrivateWriteView {
        PrivateWriteView {
            directory: self.directory@,
            temporary: self.temporary@,
            target: self.target@,
            step: self.step,
        }
    }
}

/// The file beside a document into which the process `process` writes it first.
pub open spec fn temporary_name(stem: Seq<char>, process: nat) -> Seq<char> {
    stem + ".tmp-"@ + text::decimal(process)
}

/// The write of a document under a name in a directory.
pub open spec fn private_write(
    directory: Seq<u8>,
    stem: Seq<char>,
    extension: Seq<char>,
    process: nat,
) -> PrivateWriteView {
    PrivateWriteView {
        directory,
        temporary: paths::joined_path(directory, encode_utf8(temporary_name(stem, process))),
        target: paths::joined_path(directory, encode_utf8(stem + extension)),
        step: WriteStep::CreateDirectory,
    }
}

/// One action on the file system.
#[derive(Debug, PartialEq, Eq)]
pub enum FileAction<'a> {
    /// Create a directory and those above it.
    CreateDirectory(&'a UnixPath),
    /// Set the mode of a file or a directory.
    Restrict(&'a UnixPath, u32),
    /// Write the document to a file.
    Write(&'a UnixPath),
    /// Move a file over another.
    Rename(&'a UnixPath, &'a UnixPath),
    /// Nothing.
    Nothing,
}

/// The contents of an action.
#[verifier::ext_equal]
pub enum ActionView {
    CreateDirectory(Seq<u8>),
    Restrict(Seq<u8>, u32),
    Write(Seq<u8>),
    Rename(Seq<u8>, Seq<u8>),
    Nothing,
}

impl<'a> View for FileAction<'a> {
    type V = ActionView;

    open spec fn view(&self) -> ActionView {
        match *self {
            FileAction::CreateDirectory(path) => ActionView::CreateDirectory(path@),
            FileAction::Restrict(path, mode) => ActionView::Restrict(path@, mode),
            FileAction::Write(path) => ActionView::Write(path@),
            FileAction::Rename(from, to) => ActionView::Rename(from@, to@),
            FileAction::Nothing => ActionView::Nothing,
        }
    }
}

impl PrivateWriteView {
    /// The action that is due.
    pub open spec fn due(self) -> ActionView {
        match self.step {
            WriteStep::CreateDirectory => ActionView::CreateDirectory(self.directory),
            WriteStep::RestrictDirectory => ActionView::Restrict(self.directory, OWNER_DIRECTORY),
            WriteStep::WriteTemporary => ActionView::Write(self.temporary),
            WriteStep::RestrictTemporary => ActionView::Restrict(self.temporary, OWNER_FILE),
            WriteStep::Commit => ActionView::Rename(self.temporary, self.target),
            WriteStep::Done => ActionView::Nothing,
        }
    }

    /// The write once the action that was due has been done.
    pub open spec fn advanced(self) -> PrivateWriteView {
        PrivateWriteView { step: self.step.following(), ..self }
    }
}

impl PrivateWrite {
    /// Starts the write of a document under a name in a directory.
    fn new(directory: &UnixPath, stem: &str, extension: &str, process: u32) -> (r: Self)
        ensures
            r@ == private_write(directory@, stem@, extension@, process as nat),
    {
        let mut temporary = pair(stem, ".tmp-");
        temporary.append(decimal_text(process as usize).as_str());
        let file = pair(stem, extension);
        PrivateWrite {
            directory: directory.copy(),
            temporary: directory.join(temporary.as_str()),
            target: directory.join(file.as_str()),
            step: WriteStep::CreateDirectory,
        }
    }

    /// The action that is due.
    pub fn action(&self) -> (r: FileAction<'_>)
        ensures
            r@ == self@.due(),
    {
        match self.step {
            WriteStep::CreateDirectory => FileAction::CreateDirectory(&self.directory),
            WriteStep::RestrictDirectory => FileAction::Restrict(&self.directory, OWNER_DIRECTORY),
            WriteStep::WriteTemporary => FileAction::Write(&self.temporary),
            WriteStep::RestrictTemporary => FileAction::Restrict(&self.temporary, OWNER_FILE),
            WriteStep::Commit => FileAction::Rename(&self.temporary, &self.target),
            WriteStep::Done => FileAction::Nothing,
        }
    }

    /// Goes on after the action that was due, which may have failed for a reason.
    pub fn advance(self, outcome: Result<(), String>) -> (r: Result<Self, ClientError>)
        ensures
            crate::error::outcome(r) == match outcome {
                Ok(()) => Ok(self@.advanced()),
                Err(reason) => Err(
                    ErrorView::Configuration(self@.step.complaint() + reason@),
                ),
            },
    {
        match outcome {
            Ok(()) => {
                let step = match self.step {
                    WriteStep::CreateDirectory => WriteStep::RestrictDirectory,
                    WriteStep::RestrictDirectory => WriteStep::WriteTemporary,
                    WriteStep::WriteTemporary => WriteStep::RestrictTemporary,
                    WriteStep::RestrictTemporary => WriteStep::Commit,
                    WriteStep::Commit => WriteStep::Done,
                    WriteStep::Done => WriteStep::Done,
                };
                Ok(
                    PrivateWrite {
                        directory: self.directory,
                        temporary: self.temporary,
                        target: self.target,
                        step,
                    },
                )
            },
            Err(reason) => {
                let complaint = match self.step {
                    WriteStep::CreateDirectory => "creating private state: ",
                    WriteStep::RestrictDirectory => "setting private state permissions: ",
                    WriteStep::WriteTemporary => "writing private state: ",
                    WriteStep::RestrictTemporary => "setting private state permissions: ",
                    WriteStep::Commit => "committing private state: ",
                    WriteStep::Done => "",
                };
                Err(ClientError::Configuration(pair(complaint, reason.as_str())))
            },
        }
    }
}

/// Owner-only atomic OAuth credential file.
#[derive(Debug)]
pub struct FileCredentialStore {
    directory: UnixPath,
    id: ConnectionId,
}

impl Clone for FileCredentialStore {
    fn clone(&self) -> (r: Self)
        ensures
            r.directory() == self.directory(),
            r.owner() == self.owner(),
    {
        FileCredentialStore { directory: self.directory.clone(), id: self.id.clone() }
    }
}

/// Where the credentials of a connection are.
pub open spec fn credential_path(directory: Seq<u8>, id: Seq<char>) -> Seq<u8> {
    paths::joined_path(directory, encode_utf8(id + ".json"@))
}

impl FileCredentialStore {
    /// Where the file is kept.
    pub closed spec fn directory(self) -> Seq<u8> {
        self.directory@
    }

    /// The connection whose credentials are kept.
    pub closed spec fn owner(self) -> Seq<char> {
        self.id@
    }

    /// The store of a connection in a directory.
    pub fn new(directory: UnixPath, id: ConnectionId) -> (r: Self)
        ensures
            r.directory() == directory@,
            r.owner() == id@,
    {
        FileCredentialStore { directory, id }
    }

    /// The file.
    pub fn path(&self) -> (r: UnixPath)
        ensures
            r@ == credential_path(self.directory(), self.owner()),
    {
        let file = pair(self.id.as_str(), ".json");
        self.directory.join(file.as_str())
    }

    /// The document, by what reading the file gave.
    pub fn load(&self, read: FileRead) -> (r: Result<Option<SecretString>, ClientError>)
        ensures
            loaded(r) == read_outcome("reading OAuth credentials: "@, read),
    {
        load_document("reading OAuth credentials: ", read)
    }

    /// Starts to replace the document, on behalf of a process.
    pub fn save(&self, process: u32) -> (r: PrivateWrite)
        ensures
            r@ == private_write(self.directory(), self.owner(), ".json"@, process as nat),
    {
        PrivateWrite::new(&self.directory, self.id.as_str(), ".json", process)
    }
}

/// Owner-only PKCE/state files, keyed by a digest of the untrusted state token.
#[derive(Debug)]
pub struct FileStateStore {
    directory: UnixPath,
}

impl View for FileStateStore {
    type V = Seq<u8>;

    closed spec fn view(&self) -> Seq<u8> {
        self.directory@
    }
}

impl Clone for FileStateStore {
    fn clone(&self) -> (r: Self)
        ensures
            r@ == self@,
    {
        FileStateStore { directory: self.directory.clone() }
    }
}

/// The name of the session under a state token.
pub open spec fn session_name(key: Seq<char>) -> Seq<char> {
    canonical::digest_text(encode_utf8(key))
}

/// Where the session under a state token is.
pub open spec fn session_path(directory: Seq<u8>, key: Seq<char>) -> Seq<u8> {
    paths::joined_path(directory, encode_utf8(session_name(key)))
}

impl FileStateStore {
    /// The store in a directory.
    pub fn new(directory: UnixPath) -> (r: Self)
        ensures
            r@ == directory@,
    {
        FileStateStore { directory }
    }

    /// The file under a state token.
    pub fn key_path(&self, key: &str) -> (r: UnixPath)
        ensures
            r@ == session_path(self@, key@),
            custody_laws::plain_name(session_name(key@)),
            session_name(key@).len() == 64,
    {
        let digest = digest_hex(key.as_bytes());
        proof {
            custody_laws::law_digests_are_plain_names(
                outside::sha256_digest(encode_utf8(key@)),
            );
        }
        self.directory.join(digest.as_str())
    }

    /// The document, by what reading the file under its state token gave.
    pub fn load(&self, read: FileRead) -> (r: Result<Option<SecretString>, ClientError>)
        ensures
            loaded(r) == read_outcome("reading OAuth authorization state: "@, read),
    {
        load_document("reading OAuth authorization state: ", read)
    }

    /// Starts to replace the document under a state token, on behalf of a process.
    pub fn save(&self, key: &str, process: u32) -> (r: PrivateWrite)
        ensures
            r@ == private_write(self@, session_name(key@), ""@, process as nat),
            r@.target == session_path(self@, key@),
    {
        let digest = digest_hex(key.as_bytes());
        proof {
            reveal_strlit("");
            assert(session_name(key@) + ""@ =~= session_name(key@));
        }
        PrivateWrite::new(&self.directory, digest.as_str(), "", process)
    }
}

} // verus!
