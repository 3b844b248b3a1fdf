use asset_extractor::error::Error;

fn paths(list: &[&str]) -> Vec<String> {
    list.iter().map(|p| String::from(*p)).collect()
}

#[test]
fn missing_root_names_the_path_tried() {
    let e = Error::AssetsFolderNotFound(paths(&["assets/"]));
    assert_eq!(e.message(), "Could not find assets folder. Tried assets/");
}

#[test]
fn missing_root_lists_every_path_tried() {
    let e = Error::AssetsFolderNotFound(paths(&["assets/", "/srv/assets", "a b"]));
    assert_eq!(e.message(), "Could not find assets folder. Tried assets/, /srv/assets, a b");
}

#[test]
fn missing_root_with_nothing_tried() {
    let e = Error::AssetsFolderNotFound(Vec::new());
    assert_eq!(e.message(), "Could not find assets folder. Tried ");
}

#[test]
fn missing_indexes_names_the_path_tried() {
    let e = Error::IndexesFolderNotFound(paths(&["assets/indexes"]));
    assert_eq!(e.message(), "Could not find indexes folder. Tried assets/indexes");
}

#[test]
fn every_comma_and_space_at_the_end_of_the_list_is_taken_off() {
    let e = Error::IndexesFolderNotFound(paths(&["a, ", ", "]));
    assert_eq!(e.message(), "Could not find indexes folder. Tried a");
    let e = Error::AssetsFolderNotFound(paths(&["a,", "b ,"]));
    assert_eq!(e.message(), "Could not find assets folder. Tried a,, b ,");
    let e = Error::AssetsFolderNotFound(paths(&["x", ""]));
    assert_eq!(e.message(), "Could not find assets folder. Tried x");
}

#[test]
fn invalid_index_file_names_the_file() {
    let e = Error::InvalidIndexFile(String::from("assets/indexes/.hidden"));
    assert_eq!(e.message(), "Invalid index file assets/indexes/.hidden");
    let e = Error::InvalidIndexFile(String::from("x, "));
    assert_eq!(e.message(), "Invalid index file x, ");
}

#[test]
fn malformed_index_names_the_file_and_the_reason() {
    let e = Error::MalformedIndex {
        path: String::from("assets/indexes/game.json"),
        message: String::from("expected value at line 1 column 1"),
    };
    assert_eq!(
        e.message(),
        "Could not parse index file assets/indexes/game.json: expected value at line 1 column 1"
    );
}

#[test]
fn filesystem_failure_names_the_paths_and_the_reason() {
    let e = Error::Filesystem {
        paths: paths(&["assets/objects/de/deadbeef", "assets/files/game/hero.png"]),
        message: String::from("No such file or directory (os error 2)"),
    };
    assert_eq!(
        e.message(),
        "File system error at assets/objects/de/deadbeef, assets/files/game/hero.png: \
         No such file or directory (os error 2)"
    );
}

#[test]
fn unexpected_event_reads_as_such() {
    assert_eq!(Error::UnexpectedEvent.message(), "Unexpected event");
}

#[test]
fn errors_compare_by_what_they_hold() {
    assert_eq!(
        Error::InvalidIndexFile(String::from("a")),
        Error::InvalidIndexFile(String::from("a"))
    );
    assert_ne!(
        Error::AssetsFolderNotFound(paths(&["a"])),
        Error::IndexesFolderNotFound(paths(&["a"]))
    );
    assert!(Error::AssetsFolderNotFound(paths(&["z"])) < Error::IndexesFolderNotFound(paths(&["a"])));
    assert!(Error::InvalidIndexFile(String::from("a")) < Error::InvalidIndexFile(String::from("b")));
}
