use std::collections::BTreeMap;

use b10x_mcp::custody::{
    remove_if_present, FileAction, FileCredentialStore, FileRead, FileRemoval, FileStateStore,
    PrivateWrite, OWNER_DIRECTORY, OWNER_FILE,
};
use b10x_mcp::error::ClientError;
use b10x_mcp::identity::ConnectionId;
use b10x_mcp::paths::{
    require_absolute, require_absolute_text, Environment, LocalPaths, UnixPath,
};
use b10x_mcp::secret::SecretString;

fn path(text: &str) -> UnixPath {
    UnixPath::from_text(text)
}

fn id(name: &str) -> ConnectionId {
    ConnectionId::new(name).unwrap()
}

#[derive(Default)]
struct Disk {
    files: BTreeMap<Vec<u8>, String>,
    modes: BTreeMap<Vec<u8>, u32>,
    log: Vec<String>,
}

impl Disk {
    fn run(&mut self, write: PrivateWrite, document: &str) {
        let mut write = write;
        loop {
            match write.action() {
                FileAction::CreateDirectory(_) => self.log.push("create".to_owned()),
                FileAction::Restrict(path, mode) => {
                    self.log.push(format!("restrict {mode:o}"));
                    self.modes.insert(path.bytes.clone(), mode);
                }
                FileAction::Write(path) => {
                    self.log.push("write".to_owned());
                    self.files.insert(path.bytes.clone(), document.to_owned());
                }
                FileAction::Rename(from, to) => {
                    self.log.push("rename".to_owned());
                    let document = self.files.remove(&from.bytes).unwrap();
                    self.files.insert(to.bytes.clone(), document);
                    let mode = self.modes.remove(&from.bytes).unwrap();
                    self.modes.insert(to.bytes.clone(), mode);
                }
                FileAction::Nothing => return,
            }
            write = write.advance(Ok(())).unwrap();
        }
    }

    fn read(&self, path: &UnixPath) -> FileRead {
        match self.files.get(&path.bytes) {
            Some(text) => FileRead::Text(text.clone()),
            None => FileRead::Missing,
        }
    }

    fn remove(&mut self, path: &UnixPath) -> FileRemoval {
        match self.files.remove(&path.bytes) {
            Some(_) => FileRemoval::Removed,
            None => FileRemoval::Missing,
        }
    }
}

fn shown(r: Result<Option<SecretString>, ClientError>) -> String {
    match r {
        Ok(Some(secret)) => secret.expose().to_owned(),
        Ok(None) => "nothing".to_owned(),
        Err(error) => error.to_string(),
    }
}

#[test]
fn private_store_round_trips_and_clears() {
    let mut disk = Disk::default();
    let store = FileCredentialStore::new(path("/tmp/nested"), id("token"));
    assert_eq!(store.path(), path("/tmp/nested/token.json"));
    disk.run(store.save(41), "secret");
    assert_eq!(shown(store.load(disk.read(&store.path()))), "secret");
    assert!(remove_if_present(disk.remove(&store.path())).is_ok());
    assert_eq!(shown(store.load(disk.read(&store.path()))), "nothing");
    assert!(remove_if_present(disk.remove(&store.path())).is_ok());
}

#[test]
fn writes_are_atomic_and_owner_only() {
    let mut disk = Disk::default();
    let store = FileCredentialStore::new(path("/d"), id("a"));
    disk.run(store.save(7), "one");
    assert_eq!(disk.log, ["create", "restrict 700", "write", "restrict 600", "rename"]);
    assert_eq!(disk.files.len(), 1);
    assert_eq!(disk.modes.get(b"/d".as_slice()), Some(&OWNER_DIRECTORY));
    assert_eq!(disk.modes.get(b"/d/a.json".as_slice()), Some(&OWNER_FILE));
    let write = store.save(7);
    let write = write.advance(Ok(())).unwrap().advance(Ok(())).unwrap();
    assert_eq!(write.action(), FileAction::Write(&path("/d/a.tmp-7")));
}

#[test]
fn failed_writes_say_where_they_stopped() {
    let store = FileStateStore::new(path("/d"));
    let complaints = [
        "creating private state: ",
        "setting private state permissions: ",
        "writing private state: ",
        "setting private state permissions: ",
        "committing private state: ",
    ];
    for (steps, complaint) in complaints.iter().enumerate() {
        let mut write = store.save("k", 1);
        for _ in 0..steps {
            write = write.advance(Ok(())).unwrap();
        }
        assert_eq!(
            write.advance(Err("full".to_owned())).unwrap_err().to_string(),
            format!("configuration: {complaint}full")
        );
    }
}

#[test]
fn sessions_are_kept_under_a_digest_of_their_token() {
    let mut disk = Disk::default();
    let store = FileStateStore::new(path("/d/"));
    let name = "2c70e12b7a0646f92279f427c7b38e7334d8e5389cff167a1dc30e73f826b683";
    assert_eq!(store.key_path("key"), path(&format!("/d/{name}")));
    disk.run(store.save("key", 3), "state");
    assert_eq!(shown(store.load(disk.read(&store.key_path("key")))), "state");
    assert_eq!(shown(store.load(disk.read(&store.key_path("../other")))), "nothing");
    assert_ne!(store.key_path("a"), store.key_path("b"));
}

#[test]
fn failed_reads_and_removals_are_reported() {
    let credentials = FileCredentialStore::new(path("/d"), id("a"));
    let states = FileStateStore::new(path("/d"));
    assert_eq!(
        shown(credentials.load(FileRead::Failed("denied".to_owned()))),
        "configuration: reading OAuth credentials: denied"
    );
    assert_eq!(
        shown(states.load(FileRead::Failed("denied".to_owned()))),
        "configuration: reading OAuth authorization state: denied"
    );
    assert_eq!(
        remove_if_present(FileRemoval::Failed("busy".to_owned())).unwrap_err().to_string(),
        "configuration: removing private state: busy"
    );
}

fn environment(config: Option<&str>, state: Option<&str>, home: Option<&str>) -> Environment {
    Environment {
        config_home: config.map(path),
        state_home: state.map(path),
        home: home.map(path),
    }
}

#[test]
fn conventional_paths_follow_the_environment() {
    let named = LocalPaths::discover(&environment(Some("/c"), Some("/s/"), None)).unwrap();
    assert_eq!(named.registry, path("/c/b10x/mcp.toml"));
    assert_eq!(named.state, path("/s/b10x/mcp"));
    let fallen = LocalPaths::discover(&environment(None, None, Some("/home/u"))).unwrap();
    assert_eq!(fallen.registry, path("/home/u/.config/b10x/mcp.toml"));
    assert_eq!(fallen.state, path("/home/u/.local/state/b10x/mcp"));
    let a = fallen.credentials(&id("a"));
    assert_eq!(a.path(), path("/home/u/.local/state/b10x/mcp/oauth/a.json"));
    assert_ne!(a.path(), fallen.credentials(&id("b")).path());
    let key = fallen.authorization_states(&id("a")).key_path("k");
    assert!(key.bytes.starts_with(b"/home/u/.local/state/b10x/mcp/authorization/a/"));
}

#[test]
fn unusable_environments_are_refused_by_reason() {
    let refusal = |environment: Environment| LocalPaths::discover(&environment).unwrap_err().to_string();
    assert_eq!(
        refusal(environment(None, None, None)),
        "configuration: XDG_CONFIG_HOME and HOME are both absent"
    );
    assert_eq!(
        refusal(environment(Some("/c"), None, None)),
        "configuration: XDG_STATE_HOME and HOME are both absent"
    );
    assert_eq!(
        refusal(environment(Some("c"), None, Some("/h"))),
        "configuration: XDG_CONFIG_HOME path must be absolute"
    );
    assert_eq!(
        refusal(environment(Some(""), None, Some("/h"))),
        "configuration: XDG_CONFIG_HOME path must be absolute"
    );
    assert_eq!(
        refusal(environment(None, None, Some("h"))),
        "configuration: HOME path must be absolute"
    );
}

#[test]
fn paths_join_like_standard_paths() {
    for base in ["", "/", "/a", "/a/", "a", "a//"] {
        for part in ["", "b", "b/c", "/b", ".b"] {
            let expected = std::path::Path::new(base).join(part);
            let joined = path(base).join(part);
            assert_eq!(joined.bytes, expected.to_str().unwrap().as_bytes(), "{base:?} {part:?}");
            assert_eq!(joined.is_absolute(), expected.is_absolute());
        }
    }
    assert!(require_absolute(&path("/a"), "x").is_ok());
    assert_eq!(
        require_absolute(&path("a"), "x").unwrap_err().to_string(),
        "configuration: x path must be absolute"
    );
    assert!(require_absolute_text("/", "x").is_ok());
    assert!(require_absolute_text("", "x").is_err());
}

#[test]
fn stores_are_copied_with_their_place() {
    let paths = LocalPaths { registry: path("/r.toml"), state: path("/s") };
    assert_eq!(paths.clone(), paths);
    let credentials = paths.credentials(&id("a"));
    assert_eq!(credentials.clone().path(), credentials.path());
    let states = paths.authorization_states(&id("a"));
    assert_eq!(states.clone().key_path("k"), states.key_path("k"));
}
