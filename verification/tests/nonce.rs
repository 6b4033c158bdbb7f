use md5::{Digest, Md5};
use turn::error::Error;
use turn::nonce::{build_nonce, is_expired, nonce_from, push_decimal, to_hex, NonceStore};

#[test]
fn decimal_digits() {
    for (n, text) in [
        (0u128, "0"),
        (9, "9"),
        (10, "10"),
        (1234567890, "1234567890"),
        (u64::MAX as u128, "18446744073709551615"),
        (u128::MAX, "340282366920938463463374607431768211455"),
    ] {
        let mut out = b"x".to_vec();
        push_decimal(&mut out, n);
        assert_eq!(out, format!("x{}", text).into_bytes());
    }
}

#[test]
fn hexadecimal_digits() {
    assert_eq!(to_hex(&[]), b"".to_vec());
    assert_eq!(to_hex(&[0x00, 0x09, 0x0a, 0xff, 0x5c]), b"00090aff5c".to_vec());
}

#[test]
fn nonce_is_hex_of_md5_of_clock_and_random_number() {
    let nonce = nonce_from(1_700_000_000_123_456_789, 42);
    let expected = format!("{:x}", Md5::digest(b"170000000012345678942"));
    assert_eq!(nonce, expected.into_bytes());
    assert_eq!(nonce, b"e8f75b5c3efa2163bf7e536e801a3686".to_vec());
    assert_eq!(nonce.len(), 32);
    assert_eq!(nonce_from(0, 0), b"b4b147bc522828731f1a016bfa72c073".to_vec());
    assert_ne!(nonce_from(1, 0), nonce_from(0, 1));
}

#[test]
fn built_nonces_are_32_hex_digits() {
    let a = build_nonce().unwrap();
    let b = build_nonce().unwrap();
    assert_eq!(a.len(), 32);
    assert!(a.iter().all(|c| c.is_ascii_digit() || (b'a'..=b'f').contains(c)));
    assert_ne!(a, b);
}

#[test]
fn a_nonce_is_issued_at_most_once() {
    let mut store = NonceStore::new();
    assert_eq!(store.len(), 0);
    assert_eq!(store.insert(b"one".to_vec(), 10), Ok(()));
    assert_eq!(store.insert(b"two".to_vec(), 11), Ok(()));
    assert_eq!(store.insert(b"one".to_vec(), 12), Err(Error::ErrDuplicatedNonce));
    assert_eq!(store.len(), 2);
    assert_eq!(store.issued_at(b"one"), Some(10));
    assert_eq!(store.issued_at(b"two"), Some(11));
    assert_eq!(store.issued_at(b"three"), None);
}

#[test]
fn many_nonces_make_as_many_entries() {
    let mut store = NonceStore::new();
    let mut seen = std::collections::HashSet::new();
    for i in 0..200u64 {
        let nonce = nonce_from(i as u128, i);
        assert!(seen.insert(nonce.clone()));
        assert_eq!(store.insert(nonce, i), Ok(()));
    }
    assert_eq!(store.len(), 200);
    for i in 0..200u64 {
        assert_eq!(store.insert(nonce_from(i as u128, i), 1000), Err(Error::ErrDuplicatedNonce));
        assert_eq!(store.issued_at(&nonce_from(i as u128, i)), Some(i));
    }
    assert_eq!(store.len(), 200);
}

#[test]
fn a_nonce_past_its_lifetime_is_rejected_and_purged() {
    assert!(!is_expired(100, 100, 0));
    assert!(!is_expired(100, 160, 60));
    assert!(is_expired(100, 161, 60));
    assert!(!is_expired(100, 50, 60));
    assert!(!is_expired(u64::MAX, u64::MAX, u64::MAX));
    let mut store = NonceStore::new();
    store.insert(b"old".to_vec(), 100).unwrap();
    store.insert(b"new".to_vec(), 150).unwrap();
    assert!(store.check(b"old", 160, 60));
    assert!(!store.check(b"none", 160, 60));
    assert_eq!(store.len(), 2);
    assert!(!store.check(b"old", 161, 60));
    assert_eq!(store.len(), 1);
    assert_eq!(store.issued_at(b"old"), None);
    assert!(!store.check(b"old", 100, 60));
    assert_eq!(store.insert(b"old".to_vec(), 161), Ok(()));
    assert!(store.check(b"new", 161, 60));
}

#[test]
fn purge_takes_out_what_expired() {
    let mut store = NonceStore::new();
    for i in 0..10u64 {
        store.insert(vec![i as u8], i * 10).unwrap();
    }
    store.purge(75, 30);
    assert_eq!(store.len(), 5);
    for i in 0..10u64 {
        assert_eq!(store.issued_at(&[i as u8]), if i * 10 + 30 < 75 { None } else { Some(i * 10) });
    }
    store.purge(u64::MAX, 0);
    assert_eq!(store.len(), 0);
}
