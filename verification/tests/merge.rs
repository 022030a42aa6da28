use frontmatter_compose::block::{Frontmatter, Value};
use frontmatter_compose::merge::{
    choose_id, layer_of_derived, layer_of_pairs, merge, merge_layers, read_pair, Derived,
};
use frontmatter_compose::template::parse_frontmatter;

fn scalar(s: &str) -> Value {
    Value::Scalar(s.to_string())
}

fn strings(items: &[&str]) -> Vec<String> {
    items.iter().map(|s| s.to_string()).collect()
}

fn keys(block: &Frontmatter) -> Vec<String> {
    block.entries().iter().map(|e| e.key.clone()).collect()
}

fn nothing_derived() -> Derived {
    Derived { title: None, id: None, tags: Vec::new() }
}

#[test]
fn pair_is_cut_at_its_first_equals_sign() {
    let mut block = Frontmatter::new();
    read_pair(&mut block, "a=b=c");
    assert_eq!(block.len(), 1);
    assert_eq!(block.get("a"), Some(&scalar("b=c")));
}

#[test]
fn pair_without_equals_sign_is_dropped() {
    let mut block = Frontmatter::new();
    read_pair(&mut block, "novalue");
    read_pair(&mut block, "");
    read_pair(&mut block, "a: b");
    assert!(block.is_empty());
}

#[test]
fn pair_is_not_trimmed() {
    let mut block = Frontmatter::new();
    read_pair(&mut block, " a = b ");
    assert_eq!(block.get(" a "), Some(&scalar(" b ")));
    assert_eq!(block.get("a"), None);
}

#[test]
fn pair_may_have_an_empty_value() {
    let mut block = Frontmatter::new();
    read_pair(&mut block, "k=");
    assert_eq!(block.len(), 1);
    assert_eq!(block.get("k"), Some(&scalar("")));
}

#[test]
fn pair_with_an_empty_key_is_dropped() {
    let mut block = Frontmatter::new();
    read_pair(&mut block, "=v");
    read_pair(&mut block, "=");
    read_pair(&mut block, "==");
    assert!(block.is_empty());
    let layer = layer_of_pairs(&strings(&["=v", "a=1", "=w"]));
    assert_eq!(keys(&layer), vec!["a"]);
}

#[test]
fn later_pair_replaces_earlier_pair() {
    let layer = layer_of_pairs(&strings(&["a=1", "b=2", "bad", "a=3"]));
    assert_eq!(keys(&layer), vec!["a", "b"]);
    assert_eq!(layer.get("a"), Some(&scalar("3")));
    assert_eq!(layer.get("b"), Some(&scalar("2")));
}

#[test]
fn no_pairs_give_the_empty_layer() {
    assert!(layer_of_pairs(&Vec::new()).is_empty());
}

#[test]
fn derived_layer_holds_what_is_given() {
    let all = layer_of_derived(&Derived {
        title: Some("T".to_string()),
        id: Some("I".to_string()),
        tags: strings(&["x", "y"]),
    });
    assert_eq!(keys(&all), vec!["title", "id", "tags"]);
    assert_eq!(all.get("title"), Some(&scalar("T")));
    assert_eq!(all.get("id"), Some(&scalar("I")));
    assert_eq!(all.get("tags"), Some(&Value::List(strings(&["x", "y"]))));
    assert!(layer_of_derived(&nothing_derived()).is_empty());
    let id_only = layer_of_derived(&Derived { title: None, id: Some("7".to_string()), tags: Vec::new() });
    assert_eq!(keys(&id_only), vec!["id"]);
}

#[test]
fn stamp_comes_before_the_explicit_id() {
    assert_eq!(choose_id(Some("mine".to_string()), Some("2024".to_string())), Some("2024".to_string()));
    assert_eq!(choose_id(None, Some("2024".to_string())), Some("2024".to_string()));
    assert_eq!(choose_id(Some("mine".to_string()), None), Some("mine".to_string()));
    assert_eq!(choose_id(None, None), None);
}

#[test]
fn pair_overrides_the_template() {
    let template = parse_frontmatter("---\ntitle: Old\nkeep: yes\n---\n");
    let block = merge(template, &strings(&["title=New"]), &nothing_derived());
    assert_eq!(block.get("title"), Some(&scalar("New")));
    assert_eq!(block.get("keep"), Some(&scalar("yes")));
    assert_eq!(keys(&block), vec!["title", "keep"]);
}

#[test]
fn derived_field_overrides_pair_and_template() {
    let template = parse_frontmatter("---\ntitle: Old\nid: 1\n---\n");
    let derived = Derived { title: Some("Newest".to_string()), id: Some("3".to_string()), tags: Vec::new() };
    let block = merge(template, &strings(&["title=New", "id=2", "extra=e"]), &derived);
    assert_eq!(block.get("title"), Some(&scalar("Newest")));
    assert_eq!(block.get("id"), Some(&scalar("3")));
    assert_eq!(block.get("extra"), Some(&scalar("e")));
    assert_eq!(keys(&block), vec!["title", "id", "extra"]);
}

#[test]
fn tags_replace_earlier_tags_in_full() {
    let template = parse_frontmatter("---\ntags: old, older\n---\n");
    let derived = Derived { title: None, id: None, tags: strings(&["x", "y"]) };
    let block = merge(template, &strings(&["tags=mid"]), &derived);
    assert_eq!(block.len(), 1);
    assert_eq!(block.get("tags"), Some(&Value::List(strings(&["x", "y"]))));
}

#[test]
fn without_tags_earlier_tags_stay() {
    let template = parse_frontmatter("---\ntags: old\n---\n");
    let block = merge(template, &Vec::new(), &nothing_derived());
    assert_eq!(block.get("tags"), Some(&scalar("old")));
}

#[test]
fn merge_of_nothing_is_empty() {
    assert!(merge(Frontmatter::new(), &Vec::new(), &nothing_derived()).is_empty());
}

#[test]
fn merge_keeps_the_template_alone_as_it_is() {
    let template = parse_frontmatter("---\nb: 2\na: 1\n---\n");
    let same = parse_frontmatter("---\nb: 2\na: 1\n---\n");
    let block = merge(template, &Vec::new(), &nothing_derived());
    assert_eq!(block.entries(), same.entries());
}

#[test]
fn layers_are_laid_first_to_last() {
    let mut one = Frontmatter::new();
    one.set("k".to_string(), "1".to_string());
    one.set("a".to_string(), "a".to_string());
    let mut two = Frontmatter::new();
    two.set("k".to_string(), "2".to_string());
    two.set("b".to_string(), "b".to_string());
    let mut three = Frontmatter::new();
    three.set("k".to_string(), "3".to_string());
    let block = merge_layers(&vec![one, two, three]);
    assert_eq!(block.get("k"), Some(&scalar("3")));
    assert_eq!(keys(&block), vec!["k", "a", "b"]);
    assert!(merge_layers(&Vec::new()).is_empty());
}
