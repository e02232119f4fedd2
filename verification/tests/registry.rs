use data_pipes::registry::{find_name, Registry};

fn s(text: &str) -> String {
    text.to_string()
}

#[test]
fn a_new_registry_is_empty() {
    let store: Registry<u32> = Registry::new();
    assert_eq!(store.len(), 0);
    assert_eq!(store.get(&s("a")), None);
    assert_eq!(store.position(&s("a")), None);
    assert!(store.keys().is_empty());
}

#[test]
fn insert_appends_new_ids_in_order() {
    let mut store: Registry<u32> = Registry::new();
    store.insert(s("a"), 1);
    store.insert(s("b"), 2);
    store.insert(s("c"), 3);
    assert_eq!(store.len(), 3);
    assert_eq!(store.keys(), vec![s("a"), s("b"), s("c")]);
    assert_eq!(store.get(&s("a")), Some(&1));
    assert_eq!(store.get(&s("b")), Some(&2));
    assert_eq!(store.get(&s("c")), Some(&3));
    assert_eq!(store.position(&s("c")), Some(2));
    assert_eq!(store.get(&s("d")), None);
}

#[test]
fn insert_replaces_the_value_of_a_stored_id() {
    let mut store: Registry<u32> = Registry::new();
    store.insert(s("a"), 1);
    store.insert(s("b"), 2);
    store.insert(s("a"), 7);
    assert_eq!(store.len(), 2);
    assert_eq!(store.keys(), vec![s("a"), s("b")]);
    assert_eq!(store.get(&s("a")), Some(&7));
    assert_eq!(store.get(&s("b")), Some(&2));
}

#[test]
fn find_name_gives_the_first_occurrence() {
    let names = vec![s("x"), s("y"), s("x"), s("z")];
    assert_eq!(find_name(&names, &s("x")), Some(0));
    assert_eq!(find_name(&names, &s("y")), Some(1));
    assert_eq!(find_name(&names, &s("z")), Some(3));
    assert_eq!(find_name(&names, &s("w")), None);
    assert_eq!(find_name(&Vec::new(), &s("x")), None);
}
