use recipe_view::sorting::{insert_ranked, reversed, sort_ranked};
use recipe_view::model::Step;
use recipe_view::text::{text_eq, text_le};

fn step(id: i32, position: &str) -> Step {
    Step { id, position: position.to_string(), text: format!("step {}", id) }
}

fn ids(steps: &Vec<Step>) -> Vec<i32> {
    steps.iter().map(|s| s.id).collect()
}

#[test]
fn text_le_orders_by_code_point() {
    assert!(text_le("1", "1.5"));
    assert!(text_le("1.5", "2"));
    assert!(text_le("1", "2"));
    assert!(!text_le("2", "1.5"));
    assert!(!text_le("1.5", "1"));
    assert!(text_le("10", "2"));
    assert!(text_le("a", "b"));
    assert!(text_le("Z", "a"));
}

#[test]
fn text_le_is_reflexive_and_prefix_first() {
    assert!(text_le("", ""));
    assert!(text_le("", "a"));
    assert!(!text_le("a", ""));
    assert!(text_le("abc", "abc"));
    assert!(text_le("ab", "abc"));
    assert!(!text_le("abc", "ab"));
}

#[test]
fn text_le_agrees_with_the_order_of_strings() {
    let samples = ["", "1", "1.5", "10", "2", "a", "ab", "b", "é", "z", "日本", "\u{10FFFF}"];
    for a in samples.iter() {
        for b in samples.iter() {
            assert_eq!(text_le(a, b), a <= b, "{:?} against {:?}", a, b);
        }
    }
}

#[test]
fn text_eq_compares_characters() {
    assert!(text_eq("", ""));
    assert!(text_eq("abc", "abc"));
    assert!(!text_eq("abc", "abd"));
    assert!(!text_eq("abc", "ab"));
    assert!(!text_eq("ab", "abc"));
    assert!(text_eq("é日", "é日"));
}

#[test]
fn sort_ranked_sorts_by_position() {
    let sorted = sort_ranked(vec![step(1, "3"), step(2, "1"), step(3, "2"), step(4, "1.5")]);
    assert_eq!(ids(&sorted), vec![2, 4, 3, 1]);
}

#[test]
fn sort_ranked_keeps_the_order_of_equals() {
    let sorted = sort_ranked(vec![step(1, "b"), step(2, "a"), step(3, "b"), step(4, "a")]);
    assert_eq!(ids(&sorted), vec![2, 4, 1, 3]);
}

#[test]
fn sort_ranked_of_nothing_is_nothing() {
    let sorted: Vec<Step> = sort_ranked(Vec::new());
    assert!(sorted.is_empty());
}

#[test]
fn insert_ranked_goes_in_front_of_equals() {
    let mut sorted = vec![step(1, "a"), step(2, "b"), step(3, "c")];
    insert_ranked(&mut sorted, step(4, "b"));
    assert_eq!(ids(&sorted), vec![1, 4, 2, 3]);
    insert_ranked(&mut sorted, step(5, "d"));
    assert_eq!(ids(&sorted), vec![1, 4, 2, 3, 5]);
    insert_ranked(&mut sorted, step(6, ""));
    assert_eq!(ids(&sorted), vec![6, 1, 4, 2, 3, 5]);
}

#[test]
fn reversed_turns_the_order() {
    let turned = reversed(vec![step(1, "a"), step(2, "b"), step(3, "c")]);
    assert_eq!(ids(&turned), vec![3, 2, 1]);
    let none: Vec<Step> = reversed(Vec::new());
    assert!(none.is_empty());
}
