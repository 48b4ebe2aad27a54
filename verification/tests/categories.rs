use clap_couture::category::{Category, CommandCategoryMap, CommandName};
use clap_couture::{Couture, PromptNode};

const A: Category = Category { description: None, label: "a", title: Some("Alpha") };
const B: Category = Category { description: Some("bee"), label: "b", title: None };

static MAP: [(CommandName, Category); 4] = [
    (CommandName("x"), B),
    (CommandName("y"), A),
    (CommandName("z"), B),
    (CommandName("x"), A),
];

#[test]
fn find_returns_the_first_entry_for_a_name() {
    let map = CommandCategoryMap::new(&MAP);
    assert_eq!(map.find("x").map(|c| c.label), Some("b"));
    assert_eq!(map.find("y").map(|c| c.label), Some("a"));
    assert!(map.find("w").is_none());
    assert!(CommandCategoryMap::empty().find("x").is_none());
}

#[test]
fn distinct_keeps_each_label_once_in_first_appearance_order() {
    let map = CommandCategoryMap::new(&MAP);
    let labels: Vec<&str> = map.distinct().iter().map(|c| c.label).collect();
    assert_eq!(labels, ["b", "a"]);
}

#[test]
fn heading_falls_back_to_the_label() {
    assert_eq!(A.heading(), "Alpha");
    assert_eq!(B.heading(), "b");
}

#[test]
fn command_names_round_trip() {
    assert_eq!(CommandName::new("deploy").as_str(), "deploy");
    let map = CommandCategoryMap::new(&MAP);
    let names: Vec<&str> = map.iter().map(|(name, _)| name.as_str()).collect();
    assert_eq!(names, ["x", "y", "z", "x"]);
}

struct Bare;
impl Couture for Bare {}

#[test]
fn a_hand_written_couture_has_no_categories_or_marks() {
    assert_eq!(Bare::categories().iter().count(), 0);
    let node: PromptNode = Bare::prompts();
    assert!(node.marks().is_empty());
}

#[test]
fn a_map_iterates_by_reference_in_declared_order() {
    let map = CommandCategoryMap::new(&MAP);
    let mut labels = Vec::new();
    for (name, category) in &map {
        labels.push((name.as_str(), category.label));
    }
    assert_eq!(labels, [("x", "b"), ("y", "a"), ("z", "b"), ("x", "a")]);
}
