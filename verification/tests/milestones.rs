use dispatch::milestone::{Milestone, MilestoneIndex};

fn milestone(title: &str, number: u64) -> Milestone {
    Milestone { title: title.to_string(), number }
}

#[test]
fn new_index_is_empty() {
    let index = MilestoneIndex::new();
    assert_eq!(index.len(), 0);
    assert_eq!(index.get("v1.0"), None);
}

#[test]
fn insert_and_get() {
    let mut index = MilestoneIndex::new();
    index.insert("v1.0".to_string(), 3);
    index.insert("v2.0".to_string(), 5);
    assert_eq!(index.len(), 2);
    assert_eq!(index.get("v1.0"), Some(3));
    assert_eq!(index.get("v2.0"), Some(5));
    assert_eq!(index.get("v1"), None);
    assert_eq!(index.get("V1.0"), None);
}

#[test]
fn insert_of_a_held_title_replaces_the_number() {
    let mut index = MilestoneIndex::new();
    index.insert("v1.0".to_string(), 3);
    index.insert("v2.0".to_string(), 5);
    index.insert("v1.0".to_string(), 8);
    assert_eq!(index.len(), 2);
    assert_eq!(index.get("v1.0"), Some(8));
    assert_eq!(index.get("v2.0"), Some(5));
}

#[test]
fn extend_writes_a_page_in_order() {
    let mut index = MilestoneIndex::new();
    index.insert("a".to_string(), 1);
    index.extend(vec![milestone("b", 2), milestone("a", 3), milestone("b", 4), milestone("c", 5)]);
    assert_eq!(index.len(), 3);
    assert_eq!(index.get("a"), Some(3));
    assert_eq!(index.get("b"), Some(4));
    assert_eq!(index.get("c"), Some(5));
}

#[test]
fn extend_with_an_empty_page_changes_nothing() {
    let mut index = MilestoneIndex::new();
    index.insert("a".to_string(), 1);
    index.extend(vec![]);
    assert_eq!(index.len(), 1);
    assert_eq!(index.get("a"), Some(1));
}
