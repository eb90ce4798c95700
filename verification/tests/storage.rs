use akc::storage::{open_store_file, seal_store_file, Keychain, StoreError, FORMAT_VERSION, MAX_FILE_SIZE};

fn to_json(kc: &Keychain) -> Vec<u8> {
    let mut secrets = serde_json::Map::new();
    for (k, v) in kc.entries() {
        secrets.insert(k, serde_json::Value::String(v));
    }
    let mut store = serde_json::Map::new();
    store.insert("version".to_string(), serde_json::Value::from(FORMAT_VERSION));
    store.insert("secrets".to_string(), serde_json::Value::Object(secrets));
    serde_json::to_vec(&serde_json::Value::Object(store)).unwrap()
}

fn from_json(bytes: &[u8]) -> Keychain {
    let value: serde_json::Value = serde_json::from_slice(bytes).unwrap();
    let version = value["version"].as_u64().unwrap() as u32;
    let mut entries = Vec::new();
    for (k, v) in value["secrets"].as_object().unwrap() {
        entries.push((k.clone(), v.as_str().unwrap().to_string()));
    }
    Keychain::from_store(version, entries).unwrap()
}

fn save(kc: &Keychain, password: &str) -> Vec<u8> {
    seal_store_file(&to_json(kc), password).unwrap()
}

fn load(file: &[u8], password: &str) -> Keychain {
    from_json(&open_store_file(file, password).unwrap())
}

#[test]
fn save_load_roundtrip() {
    let mut kc = Keychain::new();
    kc.set("api_key", "value1".to_string());
    kc.set("db", "value2".to_string());
    let file = save(&kc, "pw");

    let loaded = load(&file, "pw");
    assert_eq!(loaded.get("api_key").map(String::as_str), Some("value1"));
    assert_eq!(loaded.get("db").map(String::as_str), Some("value2"));
}

#[test]
fn save_replaces_existing_file() {
    let mut kc = Keychain::new();
    kc.set("a", "1".to_string());
    let mut file = save(&kc, "pw");
    kc.set("b", "2".to_string());
    file = {
        let _previous = file;
        save(&kc, "pw")
    };

    let loaded = load(&file, "pw");
    assert_eq!(loaded.len(), 2);
}

#[test]
fn delete_missing_returns_false() {
    let mut kc = Keychain::new();
    assert!(!kc.delete("nope"));
}

#[test]
fn keys_are_sorted() {
    let mut kc = Keychain::new();
    kc.set("zeta", "v".to_string());
    kc.set("alpha", "v".to_string());
    assert_eq!(kc.keys(), vec!["alpha", "zeta"]);
}

#[test]
fn get_after_set_and_overwrite() {
    let mut kc = Keychain::new();
    kc.set("k", "one".to_string());
    kc.set("other", "x".to_string());
    assert_eq!(kc.get("k").map(String::as_str), Some("one"));
    kc.set("k", "two".to_string());
    assert_eq!(kc.get("k").map(String::as_str), Some("two"));
    assert_eq!(kc.get("other").map(String::as_str), Some("x"));
    assert_eq!(kc.len(), 2);
    assert_eq!(kc.get("missing"), None);
}

#[test]
fn delete_present_key() {
    let mut kc = Keychain::new();
    kc.set("a", "1".to_string());
    kc.set("b", "2".to_string());
    assert!(kc.delete("a"));
    assert_eq!(kc.get("a"), None);
    assert_eq!(kc.get("b").map(String::as_str), Some("2"));
    assert_eq!(kc.len(), 1);
    assert!(!kc.delete("a"));
}

#[test]
fn set_then_delete_restores_empty() {
    let mut kc = Keychain::new();
    kc.set("k", "v".to_string());
    assert!(kc.delete("k"));
    assert_eq!(kc.len(), 0);
    assert!(kc.keys().is_empty());
}

#[test]
fn keys_follow_byte_order() {
    let mut kc = Keychain::new();
    for k in ["b", "é", "Z", "a", "ab", "", "z"] {
        kc.set(k, "v".to_string());
    }
    assert_eq!(kc.keys(), vec!["", "Z", "a", "ab", "b", "z", "é"]);
}

#[test]
fn entries_are_sorted_copies() {
    let mut kc = Keychain::new();
    kc.set("y", "2".to_string());
    kc.set("x", "1".to_string());
    assert_eq!(
        kc.entries(),
        vec![("x".to_string(), "1".to_string()), ("y".to_string(), "2".to_string())]
    );
}

#[test]
fn from_store_checks_version_and_keeps_last_duplicate() {
    assert!(matches!(
        Keychain::from_store(2, Vec::new()),
        Err(StoreError::UnsupportedVersion(2))
    ));
    let kc = Keychain::from_store(
        1,
        vec![
            ("k".to_string(), "old".to_string()),
            ("a".to_string(), "1".to_string()),
            ("k".to_string(), "new".to_string()),
        ],
    )
    .unwrap();
    assert_eq!(kc.get("k").map(String::as_str), Some("new"));
    assert_eq!(kc.keys(), vec!["a", "k"]);
}

#[test]
fn oversized_files_are_refused() {
    let big = vec![0u8; MAX_FILE_SIZE as usize + 1];
    assert!(matches!(open_store_file(&big, "pw"), Err(StoreError::TooLarge)));
    let plaintext = vec![b'x'; MAX_FILE_SIZE as usize - 59];
    assert!(matches!(seal_store_file(&plaintext, "pw"), Err(StoreError::TooLarge)));
}

#[test]
fn sealed_file_length_and_wrong_password() {
    let file = seal_store_file(b"{}", "pw").unwrap();
    assert_eq!(file.len(), 2 + 60);
    assert!(matches!(open_store_file(&file, "other"), Err(StoreError::Crypto(_))));
}

#[test]
fn wipe_empties_keychain() {
    let mut kc = Keychain::new();
    kc.set("a", "1".to_string());
    kc.set("b", "2".to_string());
    kc.wipe();
    assert_eq!(kc.len(), 0);
    assert_eq!(kc.get("a"), None);
}
