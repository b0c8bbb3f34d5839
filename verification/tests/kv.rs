use url_shortener::{GetByKey, InMemKVStore, KVService, KVStore, Put, StringMap};

fn s(text: &str) -> String {
    text.to_string()
}

#[test]
fn kvstore_get_on_empty_store_is_none() {
    let store = KVStore::new();
    assert_eq!(store.get(s("missing")), None);
}

#[test]
fn kvstore_get_after_put() {
    let mut store = KVStore::new();
    store.put(s("a"), s("1"));
    store.put(s("b"), s("2"));
    assert_eq!(store.get(s("a")), Some(s("1")));
    assert_eq!(store.get(s("b")), Some(s("2")));
    assert_eq!(store.get(s("c")), None);
}

#[test]
fn kvstore_put_replaces_value() {
    let mut store = KVStore::new();
    store.put(s("a"), s("1"));
    store.put(s("b"), s("2"));
    store.put(s("a"), s("3"));
    assert_eq!(store.get(s("a")), Some(s("3")));
    assert_eq!(store.get(s("b")), Some(s("2")));
}

#[test]
fn kvstore_empty_key_and_value() {
    let mut store = KVStore::new();
    store.put(s(""), s(""));
    assert_eq!(store.get(s("")), Some(s("")));
}

#[test]
fn inmem_kvstore_get_after_put() {
    let mut store = InMemKVStore::new();
    assert_eq!(store.get(s("k")), None);
    store.put(s("k"), s("v"));
    assert_eq!(store.get(s("k")), Some(s("v")));
    store.put(s("k"), s("w"));
    assert_eq!(store.get(s("k")), Some(s("w")));
    assert_eq!(store.get(s("K")), None);
}

#[test]
fn kvservice_get_after_put() {
    let mut service = KVService::new();
    assert_eq!(service.call_get(GetByKey(s("/x"))), None);
    service.call_put(Put::new(s("/x"), s("/y")));
    service.call_put(Put::new(s("/y"), s("/x")));
    assert_eq!(service.call_get(GetByKey(s("/x"))), Some(s("/y")));
    assert_eq!(service.call_get(GetByKey(s("/y"))), Some(s("/x")));
    service.call_put(Put::new(s("/x"), s("/z")));
    assert_eq!(service.call_get(GetByKey(s("/x"))), Some(s("/z")));
}

#[test]
fn string_map_keeps_many_keys() {
    let mut map = StringMap::new();
    for i in 0..50 {
        map.insert(format!("key{}", i), format!("value{}", i));
    }
    for i in 0..50 {
        map.insert(format!("key{}", i), format!("new{}", i * 2));
    }
    for i in 0..50 {
        assert_eq!(map.get(&format!("key{}", i)), Some(format!("new{}", i * 2)));
    }
    assert_eq!(map.get(&s("key50")), None);
}

#[test]
fn string_map_non_ascii_keys() {
    let mut map = StringMap::new();
    map.insert(s("ключ"), s("значение"));
    map.insert(s("clé"), s("valeur"));
    assert_eq!(map.get(&s("ключ")), Some(s("значение")));
    assert_eq!(map.get(&s("cle")), None);
}
