use asset_extractor::layout::{index_path_of, indexes_dir_of, output_dir_of, output_path_of, resolve};
use asset_extractor::path::{file_stem, join};

#[test]
fn join_puts_one_separator_between() {
    assert_eq!(join("assets", "indexes"), "assets/indexes");
    assert_eq!(join("a/b", "c/d"), "a/b/c/d");
}

#[test]
fn join_adds_no_separator_after_one() {
    assert_eq!(join("assets/", "indexes"), "assets/indexes");
    assert_eq!(join("/", "etc"), "/etc");
}

#[test]
fn join_onto_nothing_is_the_relative_path() {
    assert_eq!(join("", "indexes"), "indexes");
    assert_eq!(join("", ""), "");
}

#[test]
fn join_of_nothing_ends_in_a_separator() {
    assert_eq!(join("assets", ""), "assets/");
    assert_eq!(join("assets/", ""), "assets/");
}

#[test]
fn join_lets_an_absolute_path_stand_alone() {
    assert_eq!(join("assets/files/game", "/etc/passwd"), "/etc/passwd");
    assert_eq!(join("", "/"), "/");
}

#[test]
fn join_keeps_characters_beyond_ascii() {
    assert_eq!(join("données", "é/ü.png"), "données/é/ü.png");
}

#[test]
fn stem_is_the_name_without_its_final_extension() {
    assert_eq!(file_stem("game.json"), Some(String::from("game")));
    assert_eq!(file_stem("a.b.json"), Some(String::from("a.b")));
    assert_eq!(file_stem("archive.tar.gz"), Some(String::from("archive.tar")));
}

#[test]
fn stem_of_a_name_without_extension_is_the_name() {
    assert_eq!(file_stem("game"), Some(String::from("game")));
    assert_eq!(file_stem("Ünïcödé"), Some(String::from("Ünïcödé")));
}

#[test]
fn stem_of_a_name_that_ends_in_a_dot_is_what_stands_before_it() {
    assert_eq!(file_stem("game."), Some(String::from("game")));
    assert_eq!(file_stem("a..b"), Some(String::from("a.")));
    assert_eq!(file_stem("..."), Some(String::from("..")));
}

#[test]
fn stem_of_a_hidden_name_with_an_extension_keeps_the_leading_dot() {
    assert_eq!(file_stem(".hidden.json"), Some(String::from(".hidden")));
}

#[test]
fn hidden_name_without_extension_has_no_stem() {
    assert_eq!(file_stem(".hidden"), None);
    assert_eq!(file_stem(".json"), None);
    assert_eq!(file_stem("."), None);
}

#[test]
fn empty_name_has_no_stem() {
    assert_eq!(file_stem(""), None);
}

#[test]
fn parent_marker_has_no_stem() {
    assert_eq!(file_stem(".."), None);
}

#[test]
fn name_with_a_separator_has_no_stem() {
    assert_eq!(file_stem("sub/game.json"), None);
    assert_eq!(file_stem("/game.json"), None);
    assert_eq!(file_stem("game.json/"), None);
}

#[test]
fn hash_resolves_under_objects_by_its_first_two_characters() {
    assert_eq!(resolve("", "ab12cd"), "objects/ab/ab12cd");
    assert_eq!(resolve("assets/", "ab12cd"), "assets/objects/ab/ab12cd");
    assert_eq!(resolve("assets", "deadbeef"), "assets/objects/de/deadbeef");
    assert_eq!(resolve("/srv/assets", "deadbeef"), "/srv/assets/objects/de/deadbeef");
}

#[test]
fn short_hash_is_its_own_shard() {
    assert_eq!(resolve("assets", "a"), "assets/objects/a/a");
    assert_eq!(resolve("assets", "ab"), "assets/objects/ab/ab");
    assert_eq!(resolve("assets", ""), "assets/objects//");
}

#[test]
fn shard_counts_characters_not_bytes() {
    assert_eq!(resolve("assets", "éüabc"), "assets/objects/éü/éüabc");
}

#[test]
fn malformed_hash_resolves_all_the_same() {
    assert_eq!(resolve("assets", "NOT A HASH"), "assets/objects/NO/NOT A HASH");
    assert_eq!(resolve("assets", "/x"), "assets/objects//x//x");
}

#[test]
fn manifests_are_looked_for_under_indexes() {
    assert_eq!(indexes_dir_of("assets/"), "assets/indexes");
    assert_eq!(indexes_dir_of("assets"), "assets/indexes");
    assert_eq!(indexes_dir_of(""), "indexes");
    assert_eq!(index_path_of("assets/", "game.json"), "assets/indexes/game.json");
}

#[test]
fn packages_are_reconstructed_under_files() {
    assert_eq!(output_dir_of("assets/", "game"), "assets/files/game");
    assert_eq!(output_dir_of("", "game"), "files/game");
    assert_eq!(
        output_path_of("assets/", "game", "sprites/hero.png"),
        "assets/files/game/sprites/hero.png"
    );
}

#[test]
fn logical_path_is_used_as_it_is_written() {
    assert_eq!(
        output_path_of("assets", "game", "../../objects/de/deadbeef"),
        "assets/files/game/../../objects/de/deadbeef"
    );
    assert_eq!(output_path_of("assets", "game", "/etc/passwd"), "/etc/passwd");
    assert_eq!(output_path_of("assets", "game", ""), "assets/files/game/");
}
