use wayland_server::state::{StateStore, StateToken};

#[test]
fn tokens_reach_what_was_inserted() {
    let mut store: StateStore<String> = StateStore::new(1);
    assert_eq!(store.store_id(), 1);
    assert_eq!(store.len(), 0);
    let first = store.insert(String::from("one"));
    let second = store.insert(String::from("two"));
    assert_eq!(first, StateToken::new(1, 0));
    assert_eq!(second, StateToken::new(1, 1));
    let copy = first;
    assert_eq!(copy.clone(), first);
    assert_eq!(store.len(), 2);
    assert_eq!(store.get(&first), Some(&String::from("one")));
    assert_eq!(store.get(&second), Some(&String::from("two")));
    let third = store.insert(String::from("three"));
    assert_eq!(store.get(&first), Some(&String::from("one")));
    assert_eq!(store.get(&third), Some(&String::from("three")));
}

#[test]
fn tokens_of_another_store_are_refused() {
    let mut mine: StateStore<u32> = StateStore::new(1);
    let mut theirs: StateStore<u32> = StateStore::new(2);
    let token = mine.insert(10);
    let foreign = theirs.insert(20);
    assert!(mine.accepts(&token));
    assert!(!mine.accepts(&foreign));
    assert!(!theirs.accepts(&token));
    assert_eq!(mine.get(&foreign), None);
    assert_eq!(theirs.get(&token), None);
    assert_eq!(mine.replace(&foreign, 30), Err(30));
    assert_eq!(mine.get(&token), Some(&10));
}

#[test]
fn tokens_that_name_no_value_are_refused() {
    let mut store: StateStore<u32> = StateStore::new(4);
    store.insert(1);
    let beyond: StateToken<u32> = StateToken::new(4, 1);
    assert!(!store.accepts(&beyond));
    assert_eq!(store.get(&beyond), None);
    assert_eq!(store.replace(&beyond, 5), Err(5));
    assert_eq!(store.len(), 1);
}

#[test]
fn values_change_in_place() {
    let mut store: StateStore<Vec<u32>> = StateStore::new(0);
    let token = store.insert(vec![1]);
    let other = store.insert(vec![7]);
    store.get_mut(&token).push(2);
    assert_eq!(store.get(&token), Some(&vec![1, 2]));
    assert_eq!(store.replace(&token, vec![9]), Ok(vec![1, 2]));
    assert_eq!(store.get(&token), Some(&vec![9]));
    assert_eq!(store.get(&other), Some(&vec![7]));
}
