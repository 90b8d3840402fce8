use daystore::keys::{check_key_bytes, load_or_create_key, KeyError};

#[test]
fn missing_key_file_creates_key() {
    let loaded = load_or_create_key(None).unwrap();
    assert!(loaded.is_new);
    assert_eq!(loaded.key.len(), 32);
}

#[test]
fn second_load_returns_same_key() {
    let first = load_or_create_key(None).unwrap();
    // the caller wrote `first.key` to the key file; the next start reads it
    let second = load_or_create_key(Some(first.key.clone())).unwrap();
    assert!(!second.is_new);
    assert_eq!(second.key, first.key);
    let third = load_or_create_key(Some(second.key.clone())).unwrap();
    assert_eq!(third.key, first.key);
}

#[test]
fn wrong_size_key_file_is_corrupt() {
    let first = load_or_create_key(None).unwrap();
    let mut damaged = first.key.clone();
    damaged.pop();
    assert!(matches!(
        load_or_create_key(Some(damaged)),
        Err(KeyError::CorruptKey { found_len: 31 })
    ));
    assert!(matches!(
        load_or_create_key(Some(vec![0u8; 64])),
        Err(KeyError::CorruptKey { found_len: 64 })
    ));
    assert!(matches!(
        load_or_create_key(Some(Vec::new())),
        Err(KeyError::CorruptKey { found_len: 0 })
    ));
}

#[test]
fn check_key_bytes_accepts_exact_length() {
    let k = vec![9u8; 32];
    assert_eq!(check_key_bytes(k.clone()).unwrap(), k);
    assert!(matches!(check_key_bytes(vec![9u8; 16]), Err(KeyError::CorruptKey { found_len: 16 })));
}
