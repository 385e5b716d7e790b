use cargo_skyline::address::{AddressStore, DeviceAddress, PersistStep};
use cargo_skyline::deploy::{DeployPhase, Deployment, Project, Report, Work};
use cargo_skyline::error::{
    exit_code, Error, ListenError, PersistError, ResolveError, TransferError,
};
use cargo_skyline::identity::resolve;
use cargo_skyline::installer::{Artifact, Phase, Runner, Sidecar, Task};
use cargo_skyline::listener::{
    CloseReason, Heard, ListenState, ListenTask, Listener, DIAGNOSTICS_PORT,
};
use cargo_skyline::reply::Listing;
use cargo_skyline::transfer::{Op, Outcome, Progress, Request, Response, TransferSession};

const TITLE: &str = "0100000000010000";
const APP_DIR: &str = "/atmosphere/contents/0100000000010000";
const PLUGIN_DIR: &str = "/atmosphere/contents/0100000000010000/plugins";
const PLUGIN: &str = "/atmosphere/contents/0100000000010000/plugins/libplugin.nro";
const SIDECAR: &str = "/atmosphere/contents/0100000000010000/plugins/main.npdm";
const MARKER: &[u8] = b"READY\n";

enum Pending {
    Store(String),
    Names(Vec<u8>),
}

/// A console on the network, and the operator's disk and screen, all in
/// memory.
struct World {
    reachable: bool,
    dirs: Vec<String>,
    files: Vec<(String, Vec<u8>)>,
    locked: Vec<String>,
    local: Vec<(String, Vec<u8>)>,
    commands: Vec<String>,
    hosts: Vec<(String, u16)>,
    inbox: Vec<u8>,
    opened: Option<Vec<u8>>,
    data_open: bool,
    control_open: bool,
    pending: Option<Pending>,
    log_reachable: bool,
    log_hosts: Vec<(String, u16)>,
    log_open: bool,
    log_reads: Vec<Heard>,
    shown: Vec<String>,
    saved: Vec<String>,
    save_fails_at: Option<PersistStep>,
}

impl World {
    fn new() -> World {
        World {
            reachable: true,
            dirs: vec!["/".to_string(), "/atmosphere".to_string(), "/atmosphere/contents".to_string()],
            files: Vec::new(),
            locked: Vec::new(),
            local: vec![
                ("target/libplugin.nro".to_string(), b"NRO0 plugin".to_vec()),
                ("meta/custom.npdm".to_string(), b"META".to_vec()),
            ],
            commands: Vec::new(),
            hosts: Vec::new(),
            inbox: Vec::new(),
            opened: None,
            data_open: false,
            control_open: false,
            pending: None,
            log_reachable: true,
            log_hosts: Vec::new(),
            log_open: false,
            log_reads: Vec::new(),
            shown: Vec::new(),
            saved: Vec::new(),
            save_fails_at: None,
        }
    }

    fn parent(path: &str) -> String {
        match path.rfind('/') {
            Some(0) | None => "/".to_string(),
            Some(at) => path[..at].to_string(),
        }
    }

    fn has_dir(&self, path: &str) -> bool {
        self.dirs.iter().any(|d| d == path)
    }

    fn file(&self, path: &str) -> Option<&Vec<u8>> {
        self.files.iter().find(|(p, _)| p == path).map(|(_, bytes)| bytes)
    }

    fn answer(&mut self, line: &str) -> String {
        let line = line.trim_end_matches("\r\n");
        self.commands.push(line.to_string());
        let (verb, argument) = match line.find(' ') {
            Some(at) => (&line[..at], &line[at + 1..]),
            None => (line, ""),
        };
        match verb {
            "USER" => "331 Any password will do.\r\n".to_string(),
            "PASS" => "230-Welcome.\r\n230 Logged in.\r\n".to_string(),
            "TYPE" => "200 OK\r\n".to_string(),
            "MKD" => {
                if self.has_dir(argument) || self.file(argument).is_some() {
                    "550 File exists.\r\n".to_string()
                } else if !self.has_dir(&World::parent(argument)) {
                    "550 No such file or directory.\r\n".to_string()
                } else if self.locked.iter().any(|p| p == argument) {
                    "550 Permission denied.\r\n".to_string()
                } else {
                    self.dirs.push(argument.to_string());
                    "257 Created.\r\n".to_string()
                }
            }
            "CWD" => {
                if self.has_dir(argument) {
                    "250 OK\r\n".to_string()
                } else {
                    "550 No such directory.\r\n".to_string()
                }
            }
            "DELE" => {
                if self.file(argument).is_none() {
                    "550 No such file or directory.\r\n".to_string()
                } else if self.locked.iter().any(|p| p == argument) {
                    "550 Permission denied.\r\n".to_string()
                } else {
                    self.files.retain(|(p, _)| p != argument);
                    "250 Deleted.\r\n".to_string()
                }
            }
            "RMD" => "550 No such directory.\r\n".to_string(),
            "PASV" => "227 Entering Passive Mode (127,0,0,1,4,1).\r\n".to_string(),
            "STOR" => {
                if self.has_dir(&World::parent(argument)) {
                    self.pending = Some(Pending::Store(argument.to_string()));
                    "150 Ready.\r\n".to_string()
                } else {
                    "553 Could not create file.\r\n".to_string()
                }
            }
            "NLST" => {
                if self.has_dir(argument) {
                    let mut names = Vec::new();
                    for (path, _) in &self.files {
                        if World::parent(path) == argument {
                            names.extend_from_slice(path.as_bytes());
                            names.extend_from_slice(b"\r\n");
                        }
                    }
                    self.pending = Some(Pending::Names(names));
                    "150 Here it comes.\r\n".to_string()
                } else {
                    "550 No such file or directory.\r\n".to_string()
                }
            }
            "QUIT" => "221 Bye.\r\n".to_string(),
            _ => "502 Not implemented.\r\n".to_string(),
        }
    }

    fn serve(&mut self, request: Request) -> Response {
        match request {
            Request::Open { host, port } => {
                self.hosts.push((host, port));
                if self.reachable {
                    self.control_open = true;
                    self.inbox = b"220 Hello.\r\n".to_vec();
                    Response::Done
                } else {
                    Response::Failed("Connection refused (os error 111)".to_string())
                }
            }
            Request::Exchange { line } => {
                assert!(self.control_open);
                assert!(line.ends_with("\r\n"));
                assert_eq!(line.matches('\n').count(), 1);
                Response::Bytes(self.answer(&line).into_bytes())
            }
            Request::Receive => {
                if self.inbox.is_empty() {
                    Response::Closed
                } else {
                    Response::Bytes(std::mem::take(&mut self.inbox))
                }
            }
            Request::OpenLocal { path } => match self.local.iter().find(|(p, _)| *p == path) {
                Some((_, bytes)) => {
                    self.opened = Some(bytes.clone());
                    Response::Done
                }
                None => Response::LocalFailed("No such file or directory (os error 2)".to_string()),
            },
            Request::OpenData { host, port } => {
                assert_eq!(host, self.hosts[self.hosts.len() - 1].0);
                assert_eq!(port, 1025);
                self.data_open = true;
                Response::Done
            }
            Request::SendFile => {
                assert!(self.data_open);
                let bytes = self.opened.take().unwrap();
                match self.pending.take() {
                    Some(Pending::Store(path)) => {
                        self.files.retain(|(p, _)| *p != path);
                        self.files.push((path, bytes));
                    }
                    _ => panic!("nothing to store"),
                }
                self.data_open = false;
                self.inbox = b"226 Stored.\r\n".to_vec();
                Response::Done
            }
            Request::ReceiveData => {
                assert!(self.data_open);
                self.data_open = false;
                self.inbox = b"226 Done.\r\n".to_vec();
                match self.pending.take() {
                    Some(Pending::Names(names)) => Response::Bytes(names),
                    _ => panic!("nothing to list"),
                }
            }
            Request::Release => {
                self.data_open = false;
                self.opened = None;
                Response::Done
            }
            Request::Shutdown => {
                self.control_open = false;
                self.data_open = false;
                self.opened = None;
                Response::Done
            }
        }
    }

    fn hear(&mut self, task: ListenTask) -> Heard {
        match task {
            ListenTask::Connect { host, port } => {
                self.log_hosts.push((host, port));
                if self.log_reachable {
                    self.log_open = true;
                    Heard::Connected
                } else {
                    Heard::Failed("No route to host (os error 113)".to_string())
                }
            }
            ListenTask::Read => self.next_read(),
            ListenTask::Show(text) => {
                self.shown.push(text);
                self.next_read()
            }
            ListenTask::HangUp => {
                self.log_open = false;
                Heard::HungUp
            }
            ListenTask::Finish(_) => panic!("a finish is not handed on"),
        }
    }

    fn next_read(&mut self) -> Heard {
        assert!(self.log_open);
        if self.log_reads.is_empty() {
            Heard::Ended
        } else {
            self.log_reads.remove(0)
        }
    }

    fn save(&mut self, address: String) -> Report {
        match self.save_fails_at {
            Some(step) => Report::SaveFailed(step),
            None => {
                self.saved.push(address);
                Report::Saved
            }
        }
    }

    fn run_op(&mut self, session: &mut TransferSession, op: &Op) -> Result<Outcome, TransferError> {
        let mut progress = session.begin(op);
        loop {
            match progress {
                Progress::Ask(request) => {
                    let response = self.serve(request);
                    progress = session.advance(response);
                }
                Progress::Finished(result) => return result,
            }
        }
    }

    fn run(&mut self, deployment: Deployment) -> Result<Vec<String>, Error> {
        let mut deployment = deployment;
        let mut session = deployment.session();
        let mut work = deployment.start();
        loop {
            let report = match work {
                Work::Finish(result) => {
                    assert_eq!(deployment.phase(), DeployPhase::Done);
                    assert!(!self.control_open);
                    assert!(!self.data_open);
                    assert!(!self.log_open);
                    assert!(self.opened.is_none());
                    return result;
                }
                Work::Save(address) => self.save(address),
                Work::Transfer(op) => {
                    Report::Transferred(self.run_op(session.as_mut().unwrap(), &op))
                }
                Work::Listen(task) => Report::Heard(self.hear(task)),
            };
            work = deployment.step(report);
        }
    }

    fn position(&self, command: &str) -> Option<usize> {
        self.commands.iter().position(|c| c == command)
    }
}

fn project() -> Project {
    Project {
        title_id: None,
        artifact: Artifact {
            local: "target/libplugin.nro".to_string(),
            name: "libplugin.nro".to_string(),
        },
        sidecar: None,
    }
}

fn empty_store() -> AddressStore {
    AddressStore::load(None)
}

fn transfer_failure(result: Result<Vec<String>, Error>) -> String {
    match result {
        Err(Error::Transfer(TransferError::TransferFailure(text))) => text,
        Err(e) => panic!("failed with {:?}", e),
        Ok(_) => panic!("did not fail"),
    }
}

fn status(result: &Result<Vec<String>, Error>) -> i32 {
    match result {
        Ok(_) => exit_code(&Ok(())),
        Err(e) => exit_code(&Err(e.duplicate())),
    }
}

#[test]
fn install_with_an_inline_address_on_a_fresh_device() {
    let mut world = World::new();
    let mut store = empty_store();
    let deployment =
        Deployment::install(Some("192.168.1.10"), Some(TITLE), false, &mut store, &project());
    let result = world.run(deployment);
    assert!(matches!(&result, Ok(lines) if lines.is_empty()));
    assert_eq!(status(&result), 0);
    assert_eq!(world.hosts, vec![("192.168.1.10".to_string(), 21)]);
    assert!(world.has_dir(PLUGIN_DIR));
    assert_eq!(world.file(PLUGIN), Some(&b"NRO0 plugin".to_vec()));
    assert_eq!(store.get(), Ok("192.168.1.10".to_string()));
    assert_eq!(world.saved, vec!["192.168.1.10".to_string()]);
    assert_eq!(
        world.commands,
        vec![
            "USER anonymous".to_string(),
            "PASS anonymous".to_string(),
            "TYPE I".to_string(),
            format!("MKD {}", APP_DIR),
            format!("MKD {}", PLUGIN_DIR),
            "PASV".to_string(),
            format!("STOR {}", PLUGIN),
            "QUIT".to_string(),
        ]
    );
}

#[test]
fn install_uses_the_stored_address_and_stores_nothing() {
    let mut world = World::new();
    let mut store = AddressStore::load(Some("10.0.0.7".to_string()));
    let mut with_id = project();
    with_id.title_id = Some(TITLE.to_string());
    let result = world.run(Deployment::install(None, None, false, &mut store, &with_id));
    assert!(result.is_ok());
    assert_eq!(world.hosts, vec![("10.0.0.7".to_string(), 21)]);
    assert!(world.saved.is_empty());
    assert_eq!(world.file(PLUGIN), Some(&b"NRO0 plugin".to_vec()));
}

#[test]
fn install_twice_finds_the_directories_there() {
    let mut world = World::new();
    let mut store = empty_store();
    let first = Deployment::install(Some("192.168.1.10"), Some(TITLE), false, &mut store, &project());
    assert!(world.run(first).is_ok());
    world.commands.clear();
    let second = Deployment::install(None, Some(TITLE), false, &mut store, &project());
    assert!(world.run(second).is_ok());
    assert_eq!(
        world.commands,
        vec![
            "USER anonymous".to_string(),
            "PASS anonymous".to_string(),
            "TYPE I".to_string(),
            format!("MKD {}", APP_DIR),
            format!("CWD {}", APP_DIR),
            format!("MKD {}", PLUGIN_DIR),
            format!("CWD {}", PLUGIN_DIR),
            "PASV".to_string(),
            format!("STOR {}", PLUGIN),
            "QUIT".to_string(),
        ]
    );
}

#[test]
fn ensure_dir_twice_in_a_row_on_a_device() {
    let mut world = World::new();
    let mut session = TransferSession::new(&DeviceAddress::parse("192.168.1.10").unwrap());
    assert!(world.run_op(&mut session, &Op::Connect).is_ok());
    let dir = Op::EnsureDir("/atmosphere/contents/new".to_string());
    assert!(world.run_op(&mut session, &dir).is_ok());
    assert!(world.run_op(&mut session, &dir).is_ok());
    assert!(world.has_dir("/atmosphere/contents/new"));
    let orphan = Op::EnsureDir("/nowhere/new".to_string());
    assert!(matches!(
        world.run_op(&mut session, &orphan),
        Err(TransferError::TransferFailure(text)) if text == "550 No such file or directory."
    ));
    assert!(world.run_op(&mut session, &Op::Close).is_ok());
    assert!(!world.control_open);
}

#[test]
fn clearing_removes_what_is_there_before_the_upload() {
    let mut world = World::new();
    world.dirs.push(APP_DIR.to_string());
    world.dirs.push(PLUGIN_DIR.to_string());
    world.files.push((PLUGIN.to_string(), b"old plugin".to_vec()));
    world.files.push((SIDECAR.to_string(), b"old sidecar".to_vec()));
    let mut store = empty_store();
    let deployment =
        Deployment::install(Some("192.168.1.10"), Some(TITLE), true, &mut store, &project());
    assert!(world.run(deployment).is_ok());
    let deleted = world.position(&format!("DELE {}", PLUGIN)).unwrap();
    let stored = world.position(&format!("STOR {}", PLUGIN)).unwrap();
    assert!(deleted < stored);
    assert!(world.position(&format!("DELE {}", SIDECAR)).unwrap() < stored);
    assert_eq!(world.file(PLUGIN), Some(&b"NRO0 plugin".to_vec()));
    assert_eq!(world.file(SIDECAR), None);
}

#[test]
fn without_clearing_the_file_is_overwritten_and_nothing_is_deleted() {
    let mut world = World::new();
    world.dirs.push(APP_DIR.to_string());
    world.dirs.push(PLUGIN_DIR.to_string());
    world.files.push((PLUGIN.to_string(), b"old plugin".to_vec()));
    world.files.push((SIDECAR.to_string(), b"old sidecar".to_vec()));
    let mut store = empty_store();
    let deployment =
        Deployment::install(Some("192.168.1.10"), Some(TITLE), false, &mut store, &project());
    assert!(world.run(deployment).is_ok());
    assert!(world.commands.iter().all(|c| !c.starts_with("DELE") && !c.starts_with("RMD")));
    assert_eq!(world.file(PLUGIN), Some(&b"NRO0 plugin".to_vec()));
    assert_eq!(world.file(SIDECAR), Some(&b"old sidecar".to_vec()));
}

#[test]
fn clearing_tolerates_that_nothing_was_there() {
    let mut world = World::new();
    let mut store = empty_store();
    let deployment =
        Deployment::install(Some("192.168.1.10"), Some(TITLE), true, &mut store, &project());
    assert!(world.run(deployment).is_ok());
    assert_eq!(
        world.commands,
        vec![
            "USER anonymous".to_string(),
            "PASS anonymous".to_string(),
            "TYPE I".to_string(),
            format!("MKD {}", APP_DIR),
            format!("MKD {}", PLUGIN_DIR),
            format!("DELE {}", PLUGIN),
            format!("RMD {}", PLUGIN),
            "PASV".to_string(),
            format!("NLST {}", PLUGIN_DIR),
            format!("DELE {}", SIDECAR),
            format!("RMD {}", SIDECAR),
            "PASV".to_string(),
            format!("NLST {}", PLUGIN_DIR),
            "PASV".to_string(),
            format!("STOR {}", PLUGIN),
            "QUIT".to_string(),
        ]
    );
    assert_eq!(world.file(PLUGIN), Some(&b"NRO0 plugin".to_vec()));
}

#[test]
fn clearing_surfaces_a_removal_that_fails_for_another_cause() {
    let mut world = World::new();
    world.dirs.push(APP_DIR.to_string());
    world.dirs.push(PLUGIN_DIR.to_string());
    world.files.push((PLUGIN.to_string(), b"old plugin".to_vec()));
    world.locked.push(PLUGIN.to_string());
    let mut store = empty_store();
    let deployment =
        Deployment::install(Some("192.168.1.10"), Some(TITLE), true, &mut store, &project());
    let result = world.run(deployment);
    assert_eq!(status(&result), 1);
    assert_eq!(transfer_failure(result), "550 Permission denied.");
    assert!(world.commands.iter().all(|c| !c.starts_with("STOR")));
    assert_eq!(world.commands.last(), Some(&"QUIT".to_string()));
    assert_eq!(world.file(PLUGIN), Some(&b"old plugin".to_vec()));
}

#[test]
fn a_declared_sidecar_is_uploaded_beside_the_plugin() {
    let mut world = World::new();
    let mut store = empty_store();
    let mut with_sidecar = project();
    with_sidecar.sidecar = Some(Sidecar { local: "meta/custom.npdm".to_string(), present: true });
    let deployment =
        Deployment::install(Some("192.168.1.10"), Some(TITLE), false, &mut store, &with_sidecar);
    assert!(world.run(deployment).is_ok());
    assert_eq!(world.file(PLUGIN), Some(&b"NRO0 plugin".to_vec()));
    assert_eq!(world.file(SIDECAR), Some(&b"META".to_vec()));
    assert!(
        world.position(&format!("STOR {}", PLUGIN)).unwrap()
            < world.position(&format!("STOR {}", SIDECAR)).unwrap()
    );
}

#[test]
fn a_declared_sidecar_that_is_not_there_fails_the_install() {
    let mut world = World::new();
    let mut store = empty_store();
    let mut with_sidecar = project();
    with_sidecar.sidecar = Some(Sidecar { local: "meta/missing.npdm".to_string(), present: false });
    let deployment =
        Deployment::install(Some("192.168.1.10"), Some(TITLE), false, &mut store, &with_sidecar);
    let result = world.run(deployment);
    assert!(matches!(result, Err(Error::Transfer(TransferError::NoSidecarFound))));
    assert_eq!(world.file(SIDECAR), None);
    assert_eq!(world.commands.last(), Some(&"QUIT".to_string()));
}

#[test]
fn a_missing_artifact_is_a_local_failure() {
    let mut world = World::new();
    world.local.clear();
    let mut store = empty_store();
    let deployment =
        Deployment::install(Some("192.168.1.10"), Some(TITLE), false, &mut store, &project());
    let result = world.run(deployment);
    assert!(matches!(
        &result,
        Err(Error::Transfer(TransferError::LocalIoFailure(text)))
            if text == "No such file or directory (os error 2)"
    ));
    assert_eq!(status(&result), 1);
    assert_eq!(world.file(PLUGIN), None);
}

#[test]
fn install_without_any_address_fails_before_any_connection() {
    let mut world = World::new();
    let mut store = empty_store();
    let deployment = Deployment::install(None, Some(TITLE), true, &mut store, &project());
    let result = world.run(deployment);
    assert!(matches!(result, Err(Error::Resolve(ResolveError::NoIpFound))));
    assert!(world.hosts.is_empty());
    assert!(world.log_hosts.is_empty());
    assert!(world.commands.is_empty());
    assert!(world.saved.is_empty());
    assert_eq!(store.contents(), None);
}

#[test]
fn install_with_a_malformed_address_fails_and_stores_nothing() {
    let mut world = World::new();
    let mut store = AddressStore::load(Some("10.0.0.7".to_string()));
    let deployment = Deployment::install(Some("10.0.0"), Some(TITLE), true, &mut store, &project());
    let result = world.run(deployment);
    assert!(matches!(result, Err(Error::Resolve(ResolveError::BadIpAddr))));
    assert!(world.hosts.is_empty());
    assert!(world.saved.is_empty());
    assert_eq!(store.get(), Ok("10.0.0.7".to_string()));
}

#[test]
fn install_without_an_identity_fails_as_no_title_id() {
    let mut world = World::new();
    let mut store = empty_store();
    let deployment = Deployment::install(Some("192.168.1.10"), None, true, &mut store, &project());
    let result = world.run(deployment);
    assert!(matches!(result, Err(Error::Resolve(ResolveError::NoTitleId))));
    assert!(world.hosts.is_empty());
    assert_eq!(world.saved, vec!["192.168.1.10".to_string()]);
}

#[test]
fn an_address_that_cannot_be_stored_ends_the_command() {
    for (step, kind) in [
        (PersistStep::FindHome, PersistError::NoHomeDir),
        (PersistStep::CreateDirectory, PersistError::CreateSwitchDirDenied),
        (PersistStep::WriteFile, PersistError::WriteIpDenied),
    ] {
        let mut world = World::new();
        world.save_fails_at = Some(step);
        let mut store = empty_store();
        let deployment =
            Deployment::install(Some("192.168.1.10"), Some(TITLE), true, &mut store, &project());
        let result = world.run(deployment);
        assert!(matches!(result, Err(Error::Persist(e)) if e == kind));
        assert!(world.hosts.is_empty());
    }
}

#[test]
fn an_unreachable_device_is_a_transfer_failure() {
    let mut world = World::new();
    world.reachable = false;
    let mut store = empty_store();
    let deployment =
        Deployment::install(Some("192.168.1.10"), Some(TITLE), true, &mut store, &project());
    let result = world.run(deployment);
    assert_eq!(transfer_failure(result), "Connection refused (os error 111)");
    assert!(world.commands.is_empty());
}

#[test]
fn install_and_run_listens_to_the_same_address() {
    let mut world = World::new();
    world.log_reads = vec![
        Heard::Bytes(b"boot noise REA".to_vec()),
        Heard::Bytes(b"DY\nfirst line\n".to_vec()),
        Heard::Bytes(b"second line\n".to_vec()),
    ];
    let mut store = empty_store();
    let deployment = Deployment::install_and_run(
        Some("192.168.1.10"),
        Some(TITLE),
        false,
        &mut store,
        &project(),
        MARKER,
    );
    let result = world.run(deployment);
    assert!(result.is_ok());
    assert_eq!(world.hosts, vec![("192.168.1.10".to_string(), 21)]);
    assert_eq!(world.log_hosts, vec![("192.168.1.10".to_string(), DIAGNOSTICS_PORT)]);
    assert_eq!(world.shown, vec!["first line\n".to_string(), "second line\n".to_string()]);
    assert_eq!(world.file(PLUGIN), Some(&b"NRO0 plugin".to_vec()));
}

#[test]
fn install_and_run_never_listens_when_the_install_fails() {
    let mut world = World::new();
    world.local.clear();
    world.log_reads = vec![Heard::Bytes(b"READY\nhello\n".to_vec())];
    let mut store = empty_store();
    let deployment = Deployment::install_and_run(
        Some("192.168.1.10"),
        Some(TITLE),
        true,
        &mut store,
        &project(),
        MARKER,
    );
    let result = world.run(deployment);
    assert!(matches!(result, Err(Error::Transfer(TransferError::LocalIoFailure(_)))));
    assert!(world.log_hosts.is_empty());
    assert!(world.shown.is_empty());
    let mut unreachable = World::new();
    unreachable.reachable = false;
    let deployment = Deployment::install_and_run(
        Some("192.168.1.10"),
        Some(TITLE),
        true,
        &mut store,
        &project(),
        MARKER,
    );
    assert!(unreachable.run(deployment).is_err());
    assert!(unreachable.log_hosts.is_empty());
}

#[test]
fn list_shows_the_names_in_the_plugin_directory() {
    let mut world = World::new();
    world.dirs.push(APP_DIR.to_string());
    world.dirs.push(PLUGIN_DIR.to_string());
    world.files.push((PLUGIN.to_string(), b"x".to_vec()));
    world.files.push((SIDECAR.to_string(), b"y".to_vec()));
    let mut store = empty_store();
    let result = world.run(Deployment::list(Some("192.168.1.10"), Some(TITLE), &mut store, None));
    assert!(matches!(
        &result,
        Ok(lines) if *lines == vec!["libplugin.nro".to_string(), "main.npdm".to_string()]
    ));
    assert_eq!(
        world.commands,
        vec![
            "USER anonymous".to_string(),
            "PASS anonymous".to_string(),
            "TYPE I".to_string(),
            "PASV".to_string(),
            format!("NLST {}", PLUGIN_DIR),
            "QUIT".to_string(),
        ]
    );
    assert_eq!(store.get(), Ok("192.168.1.10".to_string()));
}

#[test]
fn list_of_a_path_that_is_not_on_the_device_fails_without_output() {
    let mut world = World::new();
    let mut store = AddressStore::load(Some("192.168.1.10".to_string()));
    let result = world.run(Deployment::list(None, None, &mut store, Some(TITLE)));
    assert_eq!(status(&result), 1);
    assert_eq!(transfer_failure(result), "550 No such file or directory.");
    assert!(world.shown.is_empty());
    assert_eq!(world.commands.last(), Some(&"QUIT".to_string()));
}

#[test]
fn list_resolves_its_target_as_install_does() {
    let mut world = World::new();
    let mut store = empty_store();
    assert!(matches!(
        world.run(Deployment::list(None, Some(TITLE), &mut store, None)),
        Err(Error::Resolve(ResolveError::NoIpFound))
    ));
    assert!(matches!(
        world.run(Deployment::list(Some("192.168.1.10"), None, &mut store, None)),
        Err(Error::Resolve(ResolveError::NoTitleId))
    ));
    assert!(matches!(
        world.run(Deployment::list(Some("192.168.1.10"), Some("xyz"), &mut store, Some(TITLE))),
        Err(Error::Resolve(ResolveError::NoTitleId))
    ));
    assert!(world.hosts.is_empty());
}

#[test]
fn listen_to_a_device_that_closes_before_it_is_ready() {
    let mut world = World::new();
    let mut store = AddressStore::load(Some("192.168.1.10".to_string()));
    let mut deployment = Deployment::listen(None, &mut store, MARKER);
    assert!(matches!(
        deployment.start(),
        Work::Listen(ListenTask::Connect { host, port: 6969 }) if host == "192.168.1.10"
    ));
    assert!(matches!(
        deployment.step(Report::Heard(Heard::Connected)),
        Work::Listen(ListenTask::Read)
    ));
    assert!(matches!(
        deployment.step(Report::Heard(Heard::Ended)),
        Work::Listen(ListenTask::HangUp)
    ));
    assert!(matches!(deployment.step(Report::Heard(Heard::HungUp)), Work::Finish(Ok(_))));
    let result = world.run(Deployment::listen(None, &mut store, MARKER));
    assert!(matches!(&result, Ok(lines) if lines.is_empty()));
    assert_eq!(status(&result), 0);
    assert!(world.shown.is_empty());
    assert!(world.saved.is_empty());
}

#[test]
fn listen_states_when_the_device_closes_before_it_is_ready() {
    let mut listener = Listener::new(&DeviceAddress::parse("192.168.1.10").unwrap(), MARKER);
    assert_eq!(listener.state(), ListenState::Idle);
    assert!(matches!(listener.listen(), ListenTask::Connect { .. }));
    assert_eq!(listener.state(), ListenState::Connecting);
    assert!(matches!(listener.step(Heard::Connected), ListenTask::Read));
    assert_eq!(listener.state(), ListenState::WaitingForHandshake);
    assert!(matches!(listener.step(Heard::Ended), ListenTask::HangUp));
    assert_eq!(listener.state(), ListenState::Closed(CloseReason::RemoteClosed));
    assert!(matches!(
        listener.step(Heard::HungUp),
        ListenTask::Finish(Ok(CloseReason::RemoteClosed))
    ));
    assert_eq!(listener.state(), ListenState::Closed(CloseReason::RemoteClosed));
    assert!(matches!(
        listener.step(Heard::Connected),
        ListenTask::Finish(Ok(CloseReason::RemoteClosed))
    ));
}

#[test]
fn listen_finds_the_marker_across_reads_and_shows_what_follows() {
    let mut listener = Listener::new(&DeviceAddress::parse("switch.local").unwrap(), MARKER);
    listener.listen();
    listener.step(Heard::Connected);
    assert!(matches!(listener.step(Heard::Bytes(b"noise READ".to_vec())), ListenTask::Read));
    assert!(matches!(listener.step(Heard::Bytes(b"".to_vec())), ListenTask::Read));
    assert!(matches!(listener.step(Heard::Bytes(b"READ".to_vec())), ListenTask::Read));
    assert!(matches!(listener.step(Heard::Bytes(b"Y".to_vec())), ListenTask::Read));
    assert_eq!(listener.state(), ListenState::WaitingForHandshake);
    assert!(matches!(
        listener.step(Heard::Bytes(b"\nhello READY\n".to_vec())),
        ListenTask::Show(text) if text == "hello READY\n"
    ));
    assert_eq!(listener.state(), ListenState::Streaming);
    assert!(matches!(
        listener.step(Heard::Bytes(b"wor\xffld".to_vec())),
        ListenTask::Show(text) if text == "wor\u{fffd}ld"
    ));
    assert!(matches!(listener.step(Heard::Bytes(Vec::new())), ListenTask::Read));
    assert!(matches!(listener.step(Heard::Cancelled), ListenTask::HangUp));
    assert_eq!(listener.state(), ListenState::Closed(CloseReason::Cancelled));
    assert!(matches!(
        listener.step(Heard::HungUp),
        ListenTask::Finish(Ok(CloseReason::Cancelled))
    ));
}

#[test]
fn listen_with_the_marker_at_the_end_of_a_read_shows_nothing_yet() {
    let mut listener = Listener::new(&DeviceAddress::parse("switch.local").unwrap(), MARKER);
    listener.listen();
    listener.step(Heard::Connected);
    assert!(matches!(listener.step(Heard::Bytes(b"READY\n".to_vec())), ListenTask::Read));
    assert_eq!(listener.state(), ListenState::Streaming);
    assert!(matches!(
        listener.step(Heard::Bytes(b"a".to_vec())),
        ListenTask::Show(text) if text == "a"
    ));
}

#[test]
fn listen_without_a_marker_streams_from_the_first_read() {
    let mut listener = Listener::new(&DeviceAddress::parse("switch.local").unwrap(), b"");
    listener.listen();
    listener.step(Heard::Connected);
    assert!(matches!(
        listener.step(Heard::Bytes(b"at once".to_vec())),
        ListenTask::Show(text) if text == "at once"
    ));
    assert_eq!(listener.state(), ListenState::Streaming);
}

#[test]
fn listen_to_a_device_that_cannot_be_reached() {
    let mut listener = Listener::new(&DeviceAddress::parse("192.168.1.10").unwrap(), MARKER);
    listener.listen();
    assert!(matches!(
        listener.step(Heard::Failed("Connection refused".to_string())),
        ListenTask::Finish(Err(ListenError::ConnectFailure(text))) if text == "Connection refused"
    ));
    assert_eq!(listener.state(), ListenState::Closed(CloseReason::ConnectFailure));
    let mut world = World::new();
    world.log_reachable = false;
    let mut store = empty_store();
    let result = world.run(Deployment::listen(Some("192.168.1.10"), &mut store, MARKER));
    assert!(matches!(
        &result,
        Err(Error::Listen(ListenError::ConnectFailure(text)))
            if text == "No route to host (os error 113)"
    ));
    assert_eq!(status(&result), 1);
    assert_eq!(world.saved, vec!["192.168.1.10".to_string()]);
}

#[test]
fn listen_cancelled_while_connecting_or_waiting() {
    let mut connecting = Listener::new(&DeviceAddress::parse("192.168.1.10").unwrap(), MARKER);
    connecting.listen();
    assert!(matches!(
        connecting.step(Heard::Cancelled),
        ListenTask::Finish(Ok(CloseReason::Cancelled))
    ));
    let mut waiting = Listener::new(&DeviceAddress::parse("192.168.1.10").unwrap(), MARKER);
    waiting.listen();
    waiting.step(Heard::Connected);
    assert!(matches!(waiting.step(Heard::Cancelled), ListenTask::HangUp));
    assert!(matches!(
        waiting.step(Heard::HungUp),
        ListenTask::Finish(Ok(CloseReason::Cancelled))
    ));
}

#[test]
fn listen_whose_connection_drops_while_streaming_ends_as_remote_closed() {
    let mut world = World::new();
    world.log_reads = vec![
        Heard::Bytes(b"READY\nline\n".to_vec()),
        Heard::Failed("Connection reset by peer".to_string()),
    ];
    let mut store = AddressStore::load(Some("192.168.1.10".to_string()));
    let result = world.run(Deployment::listen(None, &mut store, MARKER));
    assert_eq!(status(&result), 0);
    assert_eq!(world.shown, vec!["line\n".to_string()]);
}

#[test]
fn listen_without_an_address_fails_as_no_ip_found() {
    let mut world = World::new();
    let mut store = empty_store();
    let result = world.run(Deployment::listen(None, &mut store, MARKER));
    assert!(matches!(result, Err(Error::Resolve(ResolveError::NoIpFound))));
    assert!(world.log_hosts.is_empty());
}

#[test]
fn the_runner_works_through_its_script_in_order() {
    let identity = resolve(Some(TITLE), None).unwrap();
    let artifact = Artifact { local: "target/libplugin.nro".to_string(), name: "libplugin.nro".to_string() };
    let sidecar = Sidecar { local: "meta/custom.npdm".to_string(), present: true };
    let mut runner = Runner::install(&identity, &artifact, Some(&sidecar), true);
    assert_eq!(runner.phase(), Phase::Idle);
    assert!(matches!(runner.start(), Task::Transfer(Op::Connect)));
    assert_eq!(runner.phase(), Phase::Running);
    assert!(matches!(runner.step(Ok(Outcome::Done)), Task::Transfer(Op::EnsureDir(p)) if p == APP_DIR));
    assert!(matches!(runner.step(Ok(Outcome::Done)), Task::Transfer(Op::EnsureDir(p)) if p == PLUGIN_DIR));
    assert!(matches!(runner.step(Ok(Outcome::Done)), Task::Transfer(Op::Remove(p)) if p == PLUGIN));
    assert!(matches!(runner.step(Ok(Outcome::Done)), Task::Transfer(Op::Remove(p)) if p == SIDECAR));
    assert!(matches!(
        runner.step(Ok(Outcome::Done)),
        Task::Transfer(Op::Upload { local, remote }) if local == "target/libplugin.nro" && remote == PLUGIN
    ));
    assert!(matches!(
        runner.step(Ok(Outcome::Done)),
        Task::Transfer(Op::Upload { local, remote }) if local == "meta/custom.npdm" && remote == SIDECAR
    ));
    assert!(matches!(runner.step(Ok(Outcome::Done)), Task::Transfer(Op::Close)));
    assert_eq!(runner.phase(), Phase::Closing);
    assert!(matches!(runner.step(Ok(Outcome::Done)), Task::Finish(Ok(lines)) if lines.is_empty()));
    assert_eq!(runner.phase(), Phase::Done);
    assert!(matches!(runner.step(Ok(Outcome::Done)), Task::Finish(Ok(_))));
}

#[test]
fn the_runner_closes_the_session_after_a_failure() {
    let identity = resolve(Some(TITLE), None).unwrap();
    let artifact = Artifact { local: "a".to_string(), name: "a.nro".to_string() };
    let mut runner = Runner::install(&identity, &artifact, None, false);
    runner.start();
    runner.step(Ok(Outcome::Done));
    let refusal = Err(TransferError::TransferFailure("550 Disk full.".to_string()));
    assert!(matches!(runner.step(refusal), Task::Transfer(Op::Close)));
    let close_failed = Err(TransferError::TransferFailure("broken pipe".to_string()));
    assert!(matches!(
        runner.step(close_failed),
        Task::Finish(Err(TransferError::TransferFailure(text))) if text == "550 Disk full."
    ));
}

#[test]
fn the_runner_probes_a_refused_removal() {
    let identity = resolve(Some(TITLE), None).unwrap();
    let artifact = Artifact { local: "a".to_string(), name: "a.nro".to_string() };
    let refusal = || Err(TransferError::TransferFailure("550 Refused.".to_string()));
    let listing = |raw: &[u8]| Ok(Outcome::Listing(Listing::new(raw.to_vec())));

    let mut absent = Runner::install(&identity, &artifact, None, true);
    absent.start();
    absent.step(Ok(Outcome::Done));
    absent.step(Ok(Outcome::Done));
    assert!(matches!(absent.step(Ok(Outcome::Done)), Task::Transfer(Op::Remove(_))));
    assert!(matches!(absent.step(refusal()), Task::Transfer(Op::ListDir(p)) if p == PLUGIN_DIR));
    assert_eq!(absent.phase(), Phase::Probing);
    assert!(matches!(
        absent.step(listing(b"b.nro\r\nmain.npdm\r\n")),
        Task::Transfer(Op::Remove(p)) if p == SIDECAR
    ));

    let mut present = Runner::install(&identity, &artifact, None, true);
    present.start();
    present.step(Ok(Outcome::Done));
    present.step(Ok(Outcome::Done));
    present.step(Ok(Outcome::Done));
    present.step(refusal());
    assert!(matches!(present.step(listing(b"b.nro\r\na.nro\r\n")), Task::Transfer(Op::Close)));
    assert!(matches!(
        present.step(Ok(Outcome::Done)),
        Task::Finish(Err(TransferError::TransferFailure(text))) if text == "550 Refused."
    ));

    let mut unknown = Runner::install(&identity, &artifact, None, true);
    unknown.start();
    unknown.step(Ok(Outcome::Done));
    unknown.step(Ok(Outcome::Done));
    unknown.step(Ok(Outcome::Done));
    unknown.step(refusal());
    let no_listing = Err(TransferError::TransferFailure("425 No data connection.".to_string()));
    assert!(matches!(unknown.step(no_listing), Task::Transfer(Op::Close)));
    assert!(matches!(
        unknown.step(Ok(Outcome::Done)),
        Task::Finish(Err(TransferError::TransferFailure(text))) if text == "550 Refused."
    ));
}

#[test]
fn the_runner_for_a_listing_keeps_the_names_until_the_end() {
    let identity = resolve(Some(TITLE), None).unwrap();
    let mut runner = Runner::list(&identity);
    assert!(matches!(runner.start(), Task::Transfer(Op::Connect)));
    assert!(matches!(runner.step(Ok(Outcome::Done)), Task::Transfer(Op::ListDir(p)) if p == PLUGIN_DIR));
    let names = Ok(Outcome::Listing(Listing::new(b"a.nro\nb.nro\n".to_vec())));
    assert!(matches!(runner.step(names), Task::Transfer(Op::Close)));
    assert!(matches!(
        runner.step(Ok(Outcome::Done)),
        Task::Finish(Ok(lines)) if lines == vec!["a.nro".to_string(), "b.nro".to_string()]
    ));
}

#[test]
fn a_command_hands_out_its_address_and_a_session_for_it() {
    let mut store = empty_store();
    let resolved =
        Deployment::install(Some("192.168.1.10"), Some(TITLE), false, &mut store, &project());
    assert_eq!(resolved.address().map(|a| a.as_str()), Some("192.168.1.10"));
    let mut session = resolved.session().unwrap();
    assert!(matches!(
        session.connect(),
        Progress::Ask(Request::Open { host, port: 21 }) if host == "192.168.1.10"
    ));
    let mut none = empty_store();
    let unresolved = Deployment::install(None, Some(TITLE), false, &mut none, &project());
    assert!(unresolved.address().is_none());
    assert!(unresolved.session().is_none());
}

#[test]
fn reports_out_of_turn_end_the_command() {
    let mut store = empty_store();
    let mut saving =
        Deployment::install(Some("192.168.1.10"), Some(TITLE), false, &mut store, &project());
    assert!(matches!(saving.start(), Work::Save(a) if a == "192.168.1.10"));
    assert_eq!(saving.phase(), DeployPhase::Saving);
    assert!(matches!(
        saving.step(Report::Heard(Heard::Connected)),
        Work::Finish(Err(Error::Persist(PersistError::WriteIpDenied)))
    ));
    let mut installing = Deployment::install(None, Some(TITLE), false, &mut store, &project());
    assert!(matches!(installing.start(), Work::Transfer(Op::Connect)));
    assert_eq!(installing.phase(), DeployPhase::Installing);
    assert!(matches!(installing.step(Report::Saved), Work::Transfer(Op::Close)));
    assert!(matches!(
        installing.step(Report::Transferred(Ok(Outcome::Done))),
        Work::Finish(Err(Error::Transfer(TransferError::TransferFailure(text))))
            if text == "The connection answered out of turn"
    ));
    assert!(matches!(installing.step(Report::Saved), Work::Finish(Err(_))));
}
