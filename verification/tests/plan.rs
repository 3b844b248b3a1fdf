use asset_extractor::data::{Index, Object};
use asset_extractor::plan::{materialize, CopyStep};

fn step(from: &str, to: &str) -> CopyStep {
    CopyStep { from: String::from(from), to: String::from(to) }
}

#[test]
fn empty_manifest_asks_for_no_copy() {
    assert_eq!(materialize("assets", &Index::new(), "game"), Vec::new());
}

#[test]
fn plan_holds_one_copy_for_each_entry_in_order() {
    let mut index = Index::new();
    index.insert(String::from("sprites/hero.png"), Object::new(String::from("deadbeef"), 4));
    index.insert(String::from("readme"), Object::new(String::from("ab12cd"), 100));
    index.insert(String::from("copy/of/hero.png"), Object::new(String::from("deadbeef"), 4));
    let steps = materialize("assets/", &index, "game");
    assert_eq!(
        steps,
        vec![
            step("assets/objects/de/deadbeef", "assets/files/game/sprites/hero.png"),
            step("assets/objects/ab/ab12cd", "assets/files/game/readme"),
            step("assets/objects/de/deadbeef", "assets/files/game/copy/of/hero.png"),
        ]
    );
    assert_eq!(steps.len(), index.len());
}

#[test]
fn plan_of_a_replaced_entry_holds_the_later_hash() {
    let mut index = Index::new();
    index.insert(String::from("a"), Object::new(String::from("1111"), 1));
    index.insert(String::from("a"), Object::new(String::from("2222"), 1));
    assert_eq!(materialize("r", &index, "p"), vec![step("r/objects/22/2222", "r/files/p/a")]);
}

#[test]
fn plan_does_not_look_at_the_declared_size() {
    let mut small = Index::new();
    small.insert(String::from("a"), Object::new(String::from("1111"), 0));
    let mut large = Index::new();
    large.insert(String::from("a"), Object::new(String::from("1111"), u32::MAX));
    assert_eq!(materialize("r", &small, "p"), materialize("r", &large, "p"));
}
