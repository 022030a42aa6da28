use frontmatter_compose::block::{copy_strings, Frontmatter, Value};

fn scalar(s: &str) -> Value {
    Value::Scalar(s.to_string())
}

fn keys(block: &Frontmatter) -> Vec<String> {
    block.entries().iter().map(|e| e.key.clone()).collect()
}

#[test]
fn new_block_is_empty() {
    let block = Frontmatter::new();
    assert!(block.is_empty());
    assert_eq!(block.len(), 0);
    assert_eq!(block.get("a"), None);
    assert!(!block.contains_key("a"));
    assert!(block.entries().is_empty());
}

#[test]
fn set_appends_a_new_key() {
    let mut block = Frontmatter::new();
    block.set("a".to_string(), "1".to_string());
    block.set("b".to_string(), "2".to_string());
    assert_eq!(block.len(), 2);
    assert!(!block.is_empty());
    assert!(block.contains_key("a"));
    assert!(block.contains_key("b"));
    assert!(!block.contains_key("c"));
    assert_eq!(block.get("a"), Some(&scalar("1")));
    assert_eq!(block.get("b"), Some(&scalar("2")));
    assert_eq!(keys(&block), vec!["a", "b"]);
}

#[test]
fn set_says_whether_the_write_was_made() {
    let mut block = Frontmatter::new();
    assert!(block.set("a".to_string(), "1".to_string()));
    assert!(block.set("a".to_string(), "2".to_string()));
    assert!(block.set(" ".to_string(), "3".to_string()));
    assert_eq!(block.len(), 2);
}

#[test]
fn write_under_the_empty_key_is_passed_over() {
    let mut block = Frontmatter::new();
    block.set("a".to_string(), "1".to_string());
    assert!(!block.set("".to_string(), "v".to_string()));
    assert_eq!(block.len(), 1);
    assert_eq!(block.get(""), None);
    assert!(!block.contains_key(""));
    assert_eq!(keys(&block), vec!["a"]);
    let mut empty = Frontmatter::new();
    assert!(!empty.set("".to_string(), "".to_string()));
    assert!(empty.is_empty());
}

#[test]
fn set_replaces_in_place() {
    let mut block = Frontmatter::new();
    block.set("a".to_string(), "1".to_string());
    block.set("b".to_string(), "2".to_string());
    block.set("a".to_string(), "3".to_string());
    assert_eq!(block.len(), 2);
    assert_eq!(block.get("a"), Some(&scalar("3")));
    assert_eq!(block.get("b"), Some(&scalar("2")));
    assert_eq!(keys(&block), vec!["a", "b"]);
}

#[test]
fn keys_are_compared_to_the_letter() {
    let mut block = Frontmatter::new();
    block.set("Key".to_string(), "1".to_string());
    block.set("key".to_string(), "2".to_string());
    block.set("key ".to_string(), "3".to_string());
    assert_eq!(block.len(), 3);
    assert_eq!(block.get("Key"), Some(&scalar("1")));
    assert_eq!(block.get("key"), Some(&scalar("2")));
    assert_eq!(block.get("key "), Some(&scalar("3")));
}

#[test]
fn set_tags_writes_the_list_under_tags() {
    let mut block = Frontmatter::new();
    block.set_tags(vec!["x".to_string(), "y".to_string()]);
    assert_eq!(block.len(), 1);
    assert_eq!(block.get("tags"), Some(&Value::List(vec!["x".to_string(), "y".to_string()])));
}

#[test]
fn set_tags_replaces_a_string_under_tags() {
    let mut block = Frontmatter::new();
    block.set("tags".to_string(), "a, b".to_string());
    block.set("k".to_string(), "v".to_string());
    block.set_tags(vec!["x".to_string()]);
    assert_eq!(block.len(), 2);
    assert_eq!(block.get("tags"), Some(&Value::List(vec!["x".to_string()])));
    assert_eq!(keys(&block), vec!["tags", "k"]);
}

#[test]
fn set_replaces_a_list_under_tags() {
    let mut block = Frontmatter::new();
    block.set_tags(vec!["x".to_string()]);
    block.set("tags".to_string(), "plain".to_string());
    assert_eq!(block.get("tags"), Some(&scalar("plain")));
}

#[test]
fn overlay_replaces_and_appends() {
    let mut base = Frontmatter::new();
    base.set("a".to_string(), "1".to_string());
    base.set("b".to_string(), "2".to_string());
    let mut layer = Frontmatter::new();
    layer.set("c".to_string(), "30".to_string());
    layer.set("a".to_string(), "10".to_string());
    layer.set_tags(vec!["t".to_string()]);
    base.overlay(&layer);
    assert_eq!(keys(&base), vec!["a", "b", "c", "tags"]);
    assert_eq!(base.get("a"), Some(&scalar("10")));
    assert_eq!(base.get("b"), Some(&scalar("2")));
    assert_eq!(base.get("c"), Some(&scalar("30")));
    assert_eq!(base.get("tags"), Some(&Value::List(vec!["t".to_string()])));
    assert_eq!(layer.len(), 3);
}

#[test]
fn overlay_of_the_empty_block_changes_nothing() {
    let mut base = Frontmatter::new();
    base.set("a".to_string(), "1".to_string());
    base.overlay(&Frontmatter::new());
    assert_eq!(keys(&base), vec!["a"]);
    assert_eq!(base.get("a"), Some(&scalar("1")));
}

#[test]
fn overlay_onto_the_empty_block_gives_the_layer() {
    let mut layer = Frontmatter::new();
    layer.set("b".to_string(), "2".to_string());
    layer.set("a".to_string(), "1".to_string());
    let mut base = Frontmatter::new();
    base.overlay(&layer);
    assert_eq!(base.entries(), layer.entries());
}

#[test]
fn copies_equal_their_source() {
    let list = Value::List(vec!["x".to_string(), "".to_string(), "y z".to_string()]);
    assert_eq!(list.copy(), list);
    assert_eq!(scalar("v").copy(), scalar("v"));
    assert_ne!(scalar("v").copy(), Value::List(vec!["v".to_string()]));
    let strings = vec!["a".to_string(), "b".to_string()];
    assert_eq!(copy_strings(&strings), strings);
    assert_eq!(copy_strings(&Vec::new()), Vec::<String>::new());
}
