use procon::dict::{Alike, Dict};
use procon::multi::Multi;

#[test]
fn dict_keeps_keys_in_ascending_order() {
    let mut d: Dict<u32> = Dict::new();
    d.insert("web".to_string(), 1);
    d.insert("api".to_string(), 2);
    d.insert("db".to_string(), 3);
    assert_eq!(d.len(), 3);
    assert_eq!(d.key_list(), vec!["api".to_string(), "db".to_string(), "web".to_string()]);
    assert_eq!(d.key_at(0), "api");
    assert_eq!(*d.value_at(0), 2);
    assert_eq!(*d.value_at(2), 1);
}

#[test]
fn dict_insert_replaces_the_value_of_a_known_key() {
    let mut d: Dict<u32> = Dict::new();
    d.insert("a".to_string(), 1);
    d.insert("a".to_string(), 2);
    assert_eq!(d.len(), 1);
    assert_eq!(d.get("a"), Some(&2));
}

#[test]
fn dict_get_finds_only_what_was_inserted() {
    let mut d: Dict<String> = Dict::new();
    assert_eq!(d.get("a"), None);
    assert!(!d.contains_key("a"));
    d.insert("b".to_string(), "x".to_string());
    assert_eq!(d.get("a"), None);
    assert_eq!(d.get("c"), None);
    assert_eq!(d.get("b"), Some(&"x".to_string()));
    assert!(d.contains_key("b"));
}

#[test]
fn dict_equality_does_not_depend_on_the_order_of_insertion() {
    let mut a: Dict<String> = Dict::new();
    a.insert("x".to_string(), "1".to_string());
    a.insert("y".to_string(), "2".to_string());
    let mut b: Dict<String> = Dict::new();
    b.insert("y".to_string(), "2".to_string());
    b.insert("x".to_string(), "1".to_string());
    assert!(a.alike(&b));
    assert_eq!(a, b);
    b.insert("x".to_string(), "3".to_string());
    assert!(!a.alike(&b));
    let mut c: Dict<String> = Dict::new();
    c.insert("x".to_string(), "1".to_string());
    assert!(!a.alike(&c));
    assert!(!c.alike(&a));
}

#[test]
fn dict_clone_holds_the_same_entries() {
    let mut a: Dict<Vec<String>> = Dict::new();
    a.insert("nix".to_string(), vec!["git".to_string()]);
    let b = a.clone();
    assert!(a.alike(&b));
    assert_eq!(b.get("nix"), Some(&vec!["git".to_string()]));
}

#[test]
fn multi_to_vec_and_to_option() {
    let none: Multi<u8> = Multi::Empty;
    assert_eq!(none.to_vec(), Vec::<u8>::new());
    assert_eq!(none.to_option(), None);
    assert_eq!(Multi::Single(7u8).to_vec(), vec![7]);
    assert_eq!(Multi::Single(7u8).to_option(), Some(vec![7]));
    assert_eq!(Multi::Many(vec![1u8, 2]).to_vec(), vec![1, 2]);
    assert_eq!(Multi::Many(vec![1u8, 2]).to_option(), Some(vec![1, 2]));
    assert_eq!(Multi::Many(Vec::<u8>::new()).to_option(), Some(vec![]));
    assert_eq!(Multi::<u8>::default(), Multi::Empty);
}
