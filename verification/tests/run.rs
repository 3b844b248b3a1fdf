use std::collections::{BTreeMap, BTreeSet};

use asset_extractor::data::{Index, Object};
use asset_extractor::engine::{Action, Event, Extraction, Phase, Progress};
use asset_extractor::error::Error;

/// A file system kept in memory, for a run to be driven against.
struct World {
    dirs: BTreeSet<String>,
    files: BTreeMap<String, Vec<u8>>,
    unreadable: BTreeSet<String>,
}

fn clean(path: &str) -> String {
    let trimmed = path.trim_end_matches('/');
    if trimmed.is_empty() && path.starts_with('/') {
        String::from("/")
    } else {
        String::from(trimmed)
    }
}

fn parent(path: &str) -> Option<String> {
    let path = clean(path);
    if path.is_empty() || path == "/" {
        return None;
    }
    match path.rfind('/') {
        None => Some(String::new()),
        Some(0) => Some(String::from("/")),
        Some(at) => Some(String::from(&path[..at])),
    }
}

fn parse_manifest(text: &str) -> Result<Index, String> {
    let value: serde_json::Value = serde_json::from_str(text).map_err(|e| e.to_string())?;
    let objects = value
        .get("objects")
        .and_then(|o| o.as_object())
        .ok_or_else(|| String::from("missing field `objects`"))?;
    let mut index = Index::new();
    for (path, entry) in objects.iter() {
        let hash = entry
            .get("hash")
            .and_then(|h| h.as_str())
            .ok_or_else(|| String::from("missing field `hash`"))?;
        let size = entry
            .get("size")
            .and_then(|s| s.as_u64())
            .ok_or_else(|| String::from("missing field `size`"))?;
        index.insert(path.clone(), Object::new(String::from(hash), size as u32));
    }
    Ok(index)
}

impl World {
    fn new() -> World {
        World { dirs: BTreeSet::new(), files: BTreeMap::new(), unreadable: BTreeSet::new() }
    }

    fn with_dir(mut self, path: &str) -> World {
        self.create_dir_all(path);
        self
    }

    fn with_file(mut self, path: &str, bytes: &[u8]) -> World {
        if let Some(dir) = parent(path) {
            self.create_dir_all(&dir);
        }
        self.files.insert(clean(path), bytes.to_vec());
        self
    }

    fn with_unreadable_file(mut self, path: &str) -> World {
        self = self.with_file(path, b"");
        self.unreadable.insert(clean(path));
        self
    }

    fn create_dir_all(&mut self, path: &str) {
        let mut next = Some(clean(path));
        while let Some(dir) = next {
            if dir.is_empty() {
                break;
            }
            next = parent(&dir);
            self.dirs.insert(dir);
        }
    }

    fn list(&self, dir: &str) -> Vec<String> {
        let dir = clean(dir);
        let mut names = Vec::new();
        for path in self.files.keys().chain(self.dirs.iter()) {
            if parent(path).as_deref() == Some(dir.as_str()) {
                names.push(String::from(&path[dir.len() + 1..]));
            }
        }
        names.sort();
        names
    }

    fn perform(&mut self, action: &Action) -> Event {
        match action {
            Action::ProbeDir(path) => Event::DirProbed(self.dirs.contains(&clean(path))),
            Action::ListDir(path) => Event::Listed(self.list(path)),
            Action::CreateDirAll(path) => {
                self.create_dir_all(path);
                Event::Completed
            }
            Action::CreateParentDirs(path) => match parent(path) {
                Some(dir) => {
                    self.create_dir_all(&dir);
                    Event::Completed
                }
                None => Event::IoFailed(String::from("no folder above")),
            },
            Action::LoadManifest(path) => {
                let path = clean(path);
                if self.unreadable.contains(&path) {
                    return Event::IoFailed(String::from("Permission denied (os error 13)"));
                }
                match self.files.get(&path) {
                    None => Event::IoFailed(String::from("No such file or directory (os error 2)")),
                    Some(bytes) => match parse_manifest(&String::from_utf8_lossy(bytes)) {
                        Ok(index) => Event::ManifestLoaded(index),
                        Err(why) => Event::ManifestMalformed(why),
                    },
                }
            }
            Action::CopyFile { from, to } => match self.files.get(&clean(from)).cloned() {
                None => Event::IoFailed(String::from("No such file or directory (os error 2)")),
                Some(bytes) => {
                    self.files.insert(clean(to), bytes);
                    Event::Completed
                }
            },
            Action::Finish | Action::Abort(_) => unreachable!("a run that is over asks for nothing"),
        }
    }
}

/// Drives a run over `root` to its end, and gives the run and the actions it
/// asked for, as they print.
fn drive(world: &mut World, root: &str) -> (Extraction, Vec<String>) {
    let mut run = Extraction::new(String::from(root));
    let mut log = Vec::new();
    loop {
        log.push(format!("{:?}", run.action()));
        if matches!(run.action(), Action::Finish | Action::Abort(_)) {
            return (run, log);
        }
        let event = world.perform(run.action());
        run = run.handle(event);
    }
}

fn failure(run: &Extraction) -> &Error {
    match run.action() {
        Action::Abort(error) => error,
        other => panic!("the run did not fail: {:?}", other),
    }
}

const GAME: &str = r#"{"objects":{"sprites/hero.png":{"hash":"deadbeef","size":4}}}"#;

fn game_world() -> World {
    World::new()
        .with_file("assets/indexes/game.json", GAME.as_bytes())
        .with_file("assets/objects/de/deadbeef", &[0xde, 0xad, 0xbe, 0xef])
}

#[test]
fn new_run_asks_whether_the_root_is_a_folder() {
    let run = Extraction::new(String::from("assets/"));
    assert_eq!(run.action(), &Action::ProbeDir(String::from("assets/")));
    assert_eq!(run.phase(), Phase::ProbeRoot);
    assert!(!run.is_finished());
    assert_eq!(
        run.progress(),
        Progress { manifests_done: 0, manifests_total: 0, objects_done: 0, objects_total: 0 }
    );
}

#[test]
fn missing_root_is_reported_and_nothing_is_created() {
    let mut world = World::new();
    let (run, log) = drive(&mut world, "assets/");
    assert_eq!(failure(&run), &Error::AssetsFolderNotFound(vec![String::from("assets/")]));
    assert_eq!(run.phase(), Phase::Failed);
    assert_eq!(log.len(), 2);
    assert_eq!(log[0], r#"ProbeDir("assets/")"#);
    assert!(world.dirs.is_empty());
    assert!(world.files.is_empty());
}

#[test]
fn root_that_is_a_file_is_no_root() {
    let mut world = World::new().with_file("assets", b"not a folder");
    let (run, _) = drive(&mut world, "assets");
    assert_eq!(failure(&run), &Error::AssetsFolderNotFound(vec![String::from("assets")]));
}

#[test]
fn root_without_indexes_is_reported_and_no_files_folder_is_created() {
    let mut world = World::new().with_dir("assets/objects");
    let (run, log) = drive(&mut world, "assets/");
    assert_eq!(
        failure(&run),
        &Error::IndexesFolderNotFound(vec![String::from("assets/indexes")])
    );
    assert_eq!(
        failure(&run).message(),
        "Could not find indexes folder. Tried assets/indexes"
    );
    assert_eq!(log.len(), 3);
    assert_eq!(log[1], r#"ProbeDir("assets/indexes")"#);
    assert!(!world.dirs.contains("assets/files"));
    assert_eq!(world.dirs.len(), 2);
}

#[test]
fn one_manifest_with_one_object_is_materialised() {
    let mut world = game_world();
    let (run, log) = drive(&mut world, "assets/");
    assert!(run.is_finished());
    assert_eq!(run.action(), &Action::Finish);
    assert_eq!(
        world.files.get("assets/files/game/sprites/hero.png"),
        Some(&vec![0xde, 0xad, 0xbe, 0xef])
    );
    assert_eq!(
        run.progress(),
        Progress { manifests_done: 1, manifests_total: 1, objects_done: 1, objects_total: 1 }
    );
    assert_eq!(
        log,
        vec![
            String::from(r#"ProbeDir("assets/")"#),
            String::from(r#"ProbeDir("assets/indexes")"#),
            String::from(r#"ListDir("assets/indexes")"#),
            String::from(r#"CreateDirAll("assets/files/game")"#),
            String::from(r#"LoadManifest("assets/indexes/game.json")"#),
            String::from(r#"CreateParentDirs("assets/files/game/sprites/hero.png")"#),
            String::from(
                r#"CopyFile { from: "assets/objects/de/deadbeef", to: "assets/files/game/sprites/hero.png" }"#
            ),
            String::from("Finish"),
        ]
    );
    assert!(world.dirs.contains("assets/files/game/sprites"));
}

#[test]
fn every_entry_gets_the_bytes_of_its_blob() {
    let manifest = r#"{"objects":{
        "a.txt":{"hash":"aa11","size":1},
        "dir/b.txt":{"hash":"bb22","size":2},
        "dir/sub/c.txt":{"hash":"aa11","size":1},
        "d":{"hash":"x","size":0}}}"#;
    let mut world = World::new()
        .with_file("root/indexes/pack.json", manifest.as_bytes())
        .with_file("root/objects/aa/aa11", b"A")
        .with_file("root/objects/bb/bb22", b"BB")
        .with_file("root/objects/x/x", b"");
    let (run, _) = drive(&mut world, "root");
    assert!(run.is_finished());
    assert_eq!(world.files.get("root/files/pack/a.txt"), world.files.get("root/objects/aa/aa11"));
    assert_eq!(
        world.files.get("root/files/pack/dir/b.txt"),
        world.files.get("root/objects/bb/bb22")
    );
    assert_eq!(
        world.files.get("root/files/pack/dir/sub/c.txt"),
        world.files.get("root/objects/aa/aa11")
    );
    assert_eq!(world.files.get("root/files/pack/d"), Some(&Vec::new()));
    assert_eq!(world.files.get("root/files/pack/a.txt"), Some(&b"A".to_vec()));
    assert_eq!(
        run.progress(),
        Progress { manifests_done: 1, manifests_total: 1, objects_done: 4, objects_total: 4 }
    );
}

#[test]
fn second_run_leaves_the_same_files() {
    let mut world = game_world().with_file("assets/indexes/other.idx", br#"{"objects":{"x/y":{"hash":"deadbeef","size":4}}}"#);
    let (first, first_log) = drive(&mut world, "assets");
    assert!(first.is_finished());
    let files = world.files.clone();
    let dirs = world.dirs.clone();
    let (second, second_log) = drive(&mut world, "assets");
    assert!(second.is_finished());
    assert_eq!(world.files, files);
    assert_eq!(world.dirs, dirs);
    assert_eq!(first_log, second_log);
}

#[test]
fn second_run_overwrites_what_was_there() {
    let mut world = game_world().with_file("assets/files/game/sprites/hero.png", b"stale bytes");
    let (run, _) = drive(&mut world, "assets");
    assert!(run.is_finished());
    assert_eq!(
        world.files.get("assets/files/game/sprites/hero.png"),
        Some(&vec![0xde, 0xad, 0xbe, 0xef])
    );
}

#[test]
fn missing_blob_ends_the_run_and_names_the_blob() {
    let mut world = World::new().with_file("assets/indexes/game.json", GAME.as_bytes());
    let (run, log) = drive(&mut world, "assets/");
    assert_eq!(
        failure(&run),
        &Error::Filesystem {
            paths: vec![
                String::from("assets/objects/de/deadbeef"),
                String::from("assets/files/game/sprites/hero.png"),
            ],
            message: String::from("No such file or directory (os error 2)"),
        }
    );
    assert!(failure(&run).message().contains("assets/objects/de/deadbeef"));
    assert!(!world.files.contains_key("assets/files/game/sprites/hero.png"));
    assert!(log.last().unwrap().starts_with("Abort("));
    assert_eq!(
        run.progress(),
        Progress { manifests_done: 0, manifests_total: 1, objects_done: 0, objects_total: 1 }
    );
}

#[test]
fn missing_blob_stops_the_manifests_after_it() {
    let mut world = World::new()
        .with_file("assets/indexes/a.json", GAME.as_bytes())
        .with_file("assets/indexes/b.json", br#"{"objects":{}}"#);
    let (run, log) = drive(&mut world, "assets");
    assert_eq!(run.phase(), Phase::Failed);
    assert!(!world.dirs.contains("assets/files/b"));
    assert!(!log.iter().any(|line| line.contains("b.json")));
}

#[test]
fn manifest_name_without_stem_ends_the_run() {
    let mut world = World::new()
        .with_file("assets/indexes/.hidden", GAME.as_bytes())
        .with_file("assets/indexes/zzz.json", GAME.as_bytes())
        .with_file("assets/objects/de/deadbeef", b"1234");
    let (run, log) = drive(&mut world, "assets/");
    assert_eq!(failure(&run), &Error::InvalidIndexFile(String::from("assets/indexes/.hidden")));
    assert_eq!(failure(&run).message(), "Invalid index file assets/indexes/.hidden");
    assert!(!world.dirs.contains("assets/files"));
    assert!(!log.iter().any(|line| line.contains("zzz")));
    assert_eq!(
        run.progress(),
        Progress { manifests_done: 0, manifests_total: 2, objects_done: 0, objects_total: 0 }
    );
}

#[test]
fn manifest_name_without_stem_stops_the_run_after_the_manifests_before_it() {
    let mut run = Extraction::new(String::from("r"));
    run = run.handle(Event::DirProbed(true));
    run = run.handle(Event::DirProbed(true));
    run = run.handle(Event::Listed(vec![
        String::from("a.json"),
        String::from(""),
        String::from("c.json"),
    ]));
    assert_eq!(run.action(), &Action::CreateDirAll(String::from("r/files/a")));
    run = run.handle(Event::Completed);
    assert_eq!(run.action(), &Action::LoadManifest(String::from("r/indexes/a.json")));
    run = run.handle(Event::ManifestLoaded(Index::new()));
    assert_eq!(failure(&run), &Error::InvalidIndexFile(String::from("r/indexes/")));
    assert_eq!(run.progress().manifests_done, 1);
    run = run.handle(Event::Completed);
    run = run.handle(Event::Listed(vec![String::from("d.json")]));
    assert_eq!(failure(&run), &Error::InvalidIndexFile(String::from("r/indexes/")));
}

#[test]
fn unreadable_manifest_is_passed_over_with_its_folder_created() {
    let mut world = World::new()
        .with_unreadable_file("assets/indexes/locked.json")
        .with_file("assets/indexes/game.json", GAME.as_bytes())
        .with_file("assets/objects/de/deadbeef", b"1234");
    let (run, _) = drive(&mut world, "assets/");
    assert!(run.is_finished());
    assert!(world.dirs.contains("assets/files/locked"));
    assert!(world.list("assets/files/locked").is_empty());
    assert_eq!(world.files.get("assets/files/game/sprites/hero.png"), Some(&b"1234".to_vec()));
    assert_eq!(run.progress().manifests_done, 2);
    assert_eq!(run.progress().manifests_total, 2);
}

#[test]
fn unreadable_manifest_counts_no_objects() {
    let mut world = World::new()
        .with_file("assets/indexes/a.json", GAME.as_bytes())
        .with_unreadable_file("assets/indexes/b.json")
        .with_file("assets/objects/de/deadbeef", b"1234");
    let (run, _) = drive(&mut world, "assets/");
    assert!(run.is_finished());
    assert_eq!(
        run.progress(),
        Progress { manifests_done: 2, manifests_total: 2, objects_done: 0, objects_total: 0 }
    );
}

#[test]
fn malformed_manifest_ends_the_run() {
    let mut world = World::new()
        .with_file("assets/indexes/broken.json", b"{ not json")
        .with_file("assets/indexes/game.json", GAME.as_bytes())
        .with_file("assets/objects/de/deadbeef", b"1234");
    let (run, log) = drive(&mut world, "assets/");
    match failure(&run) {
        Error::MalformedIndex { path, message } => {
            assert_eq!(path, "assets/indexes/broken.json");
            assert!(!message.is_empty());
        }
        other => panic!("another failure: {:?}", other),
    }
    assert!(world.dirs.contains("assets/files/broken"));
    assert!(!world.dirs.contains("assets/files/game"));
    assert!(!log.iter().any(|line| line.contains("game.json")));
}

#[test]
fn directory_without_manifests_finishes_at_once() {
    let mut world = World::new().with_dir("assets/indexes");
    let (run, log) = drive(&mut world, "assets");
    assert!(run.is_finished());
    assert_eq!(log.len(), 4);
    assert!(!world.dirs.contains("assets/files"));
    assert_eq!(
        run.progress(),
        Progress { manifests_done: 0, manifests_total: 0, objects_done: 0, objects_total: 0 }
    );
}

#[test]
fn manifest_without_entries_only_gets_its_folder() {
    let mut world = World::new().with_file("assets/indexes/empty.json", br#"{"objects":{}}"#);
    let (run, log) = drive(&mut world, "assets");
    assert!(run.is_finished());
    assert!(world.dirs.contains("assets/files/empty"));
    assert_eq!(log.len(), 6);
}

#[test]
fn manifests_are_taken_in_the_order_they_were_listed() {
    let mut run = Extraction::new(String::from("r/"));
    run = run.handle(Event::DirProbed(true));
    run = run.handle(Event::DirProbed(true));
    run = run.handle(Event::Listed(vec![String::from("z.json"), String::from("a.idx")]));
    assert_eq!(run.action(), &Action::CreateDirAll(String::from("r/files/z")));
    run = run.handle(Event::Completed);
    run = run.handle(Event::ManifestLoaded(Index::new()));
    assert_eq!(run.action(), &Action::CreateDirAll(String::from("r/files/a")));
    assert_eq!(run.phase(), Phase::CreateOutputDir);
    assert_eq!(run.progress().manifests_done, 1);
    assert_eq!(run.progress().manifests_total, 2);
}

#[test]
fn progress_counts_copies_as_they_are_completed() {
    let mut index = Index::new();
    index.insert(String::from("one"), Object::new(String::from("aa11"), 1));
    index.insert(String::from("two"), Object::new(String::from("bb22"), 2));
    let mut run = Extraction::new(String::from("r"));
    run = run.handle(Event::DirProbed(true));
    run = run.handle(Event::DirProbed(true));
    run = run.handle(Event::Listed(vec![String::from("p.json"), String::from("q.json")]));
    run = run.handle(Event::Completed);
    run = run.handle(Event::ManifestLoaded(index));
    assert_eq!(run.progress().objects_total, 2);
    assert_eq!(run.progress().objects_done, 0);
    assert_eq!(run.action(), &Action::CreateParentDirs(String::from("r/files/p/one")));
    run = run.handle(Event::Completed);
    assert_eq!(
        run.action(),
        &Action::CopyFile { from: String::from("r/objects/aa/aa11"), to: String::from("r/files/p/one") }
    );
    assert_eq!(run.progress().objects_done, 0);
    run = run.handle(Event::Completed);
    assert_eq!(run.progress().objects_done, 1);
    run = run.handle(Event::Completed);
    assert_eq!(
        run.action(),
        &Action::CopyFile { from: String::from("r/objects/bb/bb22"), to: String::from("r/files/p/two") }
    );
    run = run.handle(Event::Completed);
    assert_eq!(
        run.progress(),
        Progress { manifests_done: 1, manifests_total: 2, objects_done: 2, objects_total: 2 }
    );
    assert_eq!(run.action(), &Action::CreateDirAll(String::from("r/files/q")));
}

#[test]
fn refused_folder_ends_the_run_and_names_the_folder() {
    let mut run = Extraction::new(String::from("r"));
    run = run.handle(Event::DirProbed(true));
    run = run.handle(Event::DirProbed(true));
    run = run.handle(Event::Listed(vec![String::from("p.json")]));
    run = run.handle(Event::IoFailed(String::from("Permission denied (os error 13)")));
    assert_eq!(
        failure(&run),
        &Error::Filesystem {
            paths: vec![String::from("r/files/p")],
            message: String::from("Permission denied (os error 13)"),
        }
    );
    assert_eq!(
        failure(&run).message(),
        "File system error at r/files/p: Permission denied (os error 13)"
    );
}

#[test]
fn refused_listing_ends_the_run() {
    let mut run = Extraction::new(String::from("r"));
    run = run.handle(Event::DirProbed(true));
    run = run.handle(Event::DirProbed(true));
    run = run.handle(Event::IoFailed(String::from("denied")));
    assert_eq!(
        failure(&run),
        &Error::Filesystem { paths: vec![String::from("r/indexes")], message: String::from("denied") }
    );
}

#[test]
fn refused_probe_ends_the_run() {
    let run = Extraction::new(String::from("r")).handle(Event::IoFailed(String::from("denied")));
    assert_eq!(
        failure(&run),
        &Error::Filesystem { paths: vec![String::from("r")], message: String::from("denied") }
    );
}

#[test]
fn event_that_answers_nothing_asked_ends_the_run() {
    let run = Extraction::new(String::from("r")).handle(Event::Completed);
    assert_eq!(failure(&run), &Error::UnexpectedEvent);
    let run = Extraction::new(String::from("r"))
        .handle(Event::DirProbed(true))
        .handle(Event::DirProbed(true))
        .handle(Event::DirProbed(true));
    assert_eq!(failure(&run), &Error::UnexpectedEvent);
    let run = Extraction::new(String::from("r"))
        .handle(Event::DirProbed(true))
        .handle(Event::DirProbed(true))
        .handle(Event::Listed(vec![String::from("a.json")]))
        .handle(Event::ManifestLoaded(Index::new()));
    assert_eq!(failure(&run), &Error::UnexpectedEvent);
}

#[test]
fn run_that_is_over_takes_no_more_events() {
    let mut run = Extraction::new(String::from("r")).handle(Event::DirProbed(false));
    assert_eq!(failure(&run), &Error::AssetsFolderNotFound(vec![String::from("r")]));
    run = run.handle(Event::DirProbed(true));
    run = run.handle(Event::Completed);
    run = run.handle(Event::IoFailed(String::from("later")));
    assert_eq!(failure(&run), &Error::AssetsFolderNotFound(vec![String::from("r")]));

    let mut done = Extraction::new(String::from("r"))
        .handle(Event::DirProbed(true))
        .handle(Event::DirProbed(true))
        .handle(Event::Listed(Vec::new()));
    assert!(done.is_finished());
    done = done.handle(Event::IoFailed(String::from("later")));
    done = done.handle(Event::Listed(vec![String::from("a.json")]));
    assert!(done.is_finished());
    assert_eq!(done.action(), &Action::Finish);
    assert_eq!(done.progress().manifests_total, 0);
}

#[test]
fn absolute_logical_path_leaves_the_folder_of_its_package() {
    let mut index = Index::new();
    index.insert(String::from("/tmp/out"), Object::new(String::from("aa11"), 1));
    let run = Extraction::new(String::from("r"))
        .handle(Event::DirProbed(true))
        .handle(Event::DirProbed(true))
        .handle(Event::Listed(vec![String::from("p.json")]))
        .handle(Event::Completed)
        .handle(Event::ManifestLoaded(index))
        .handle(Event::Completed);
    assert_eq!(
        run.action(),
        &Action::CopyFile { from: String::from("r/objects/aa/aa11"), to: String::from("/tmp/out") }
    );
}

#[test]
fn failure_can_be_taken_out_of_a_failed_run() {
    let run = Extraction::new(String::from("r")).handle(Event::DirProbed(false));
    assert_eq!(run.into_failure(), Some(Error::AssetsFolderNotFound(vec![String::from("r")])));
}

#[test]
fn run_that_has_not_failed_holds_no_failure() {
    assert_eq!(Extraction::new(String::from("r")).into_failure(), None);
    let done = Extraction::new(String::from("r"))
        .handle(Event::DirProbed(true))
        .handle(Event::DirProbed(true))
        .handle(Event::Listed(Vec::new()));
    assert_eq!(done.into_failure(), None);
}

#[test]
fn unreadable_manifest_is_passed_over_but_a_malformed_one_is_not() {
    let listed = || {
        Extraction::new(String::from("r"))
            .handle(Event::DirProbed(true))
            .handle(Event::DirProbed(true))
            .handle(Event::Listed(vec![String::from("a.json"), String::from("b.json")]))
            .handle(Event::Completed)
    };
    let passed = listed().handle(Event::IoFailed(String::from("Permission denied (os error 13)")));
    assert_eq!(passed.action(), &Action::CreateDirAll(String::from("r/files/b")));
    assert_eq!(passed.progress().manifests_done, 1);
    let stopped = listed().handle(Event::ManifestMalformed(String::from("EOF while parsing")));
    assert_eq!(
        stopped.into_failure(),
        Some(Error::MalformedIndex {
            path: String::from("r/indexes/a.json"),
            message: String::from("EOF while parsing"),
        })
    );
}
