use hades::hexa::{generate_token, hex, is_readable, unhex};
use hades::maps::TextMap;
use hades::secrets::{apply_update, overlay, SecretFile, SecretStore};
use hades::types::SecretsUpdate;

fn store(byte: u8) -> SecretStore {
    SecretStore { dir: "/h/secrets".to_string(), key: Some([byte; 32]) }
}

fn one(k: &str, v: &str) -> TextMap {
    let mut m = TextMap::new();
    m.insert(k.to_string(), v.to_string());
    m
}

#[test]
fn round_trip_without_keychain() {
    let store = store(7u8);
    let m = one("API_KEY", "sk_live_123");
    let file = store.save(&m).unwrap();
    assert_eq!(store.path("shop"), "/h/secrets/shop.json");

    // nothing of the file may hold the plain text
    assert!(!format!("{file:?}").contains("sk_live_123"));

    let back = store.load(Some(&file));
    assert_eq!(back.pairs(), m.pairs());

    // the wrong key reads as empty, not as garbage
    let other = SecretStore { dir: "/h/secrets".to_string(), key: Some([9u8; 32]) };
    assert!(other.load(Some(&file)).is_empty());
}

#[test]
fn without_a_key_files_are_plain() {
    let s = SecretStore { dir: "/h".to_string(), key: None };
    assert!(!s.encrypted());
    let file = s.save(&one("A", "1")).unwrap();
    assert!(!file.encrypted && file.nonce.is_none() && file.data.is_none());
    assert_eq!(s.load(Some(&file)).pairs(), vec![("A".to_string(), "1".to_string())]);
    assert!(s.load(None).is_empty());
    let sealed = store(1).save(&one("A", "1")).unwrap();
    assert!(s.load(Some(&sealed)).is_empty());
}

#[test]
fn the_cipher_is_keyed_by_the_nonce() {
    let s = store(3);
    assert!(s.encrypted());
    let m = one("K", "v");
    let a = s.seal(&m, &vec![1u8; 24]).unwrap();
    let b = s.seal(&m, &vec![1u8; 24]).unwrap();
    let c = s.seal(&m, &vec![2u8; 24]).unwrap();
    assert_eq!(a.data, b.data);
    assert_ne!(a.data, c.data);
    assert_eq!(a.nonce, Some(hex(&vec![1u8; 24])));
    assert_ne!(unhex(a.data.as_ref().unwrap()).unwrap(), b"{\"K\":\"v\"}".to_vec());
    assert_ne!(s.save(&m).unwrap().nonce, s.save(&m).unwrap().nonce);
}

#[test]
fn damaged_files_read_as_empty() {
    let s = store(3);
    let good = s.seal(&one("K", "v"), &vec![1u8; 24]).unwrap();
    let damaged = SecretFile {
        encrypted: true,
        nonce: good.nonce.clone(),
        data: Some("00".to_string()),
        plain: None,
    };
    assert!(s.load(Some(&damaged)).is_empty());
    let headless = SecretFile { encrypted: true, nonce: None, data: good.data.clone(), plain: None };
    assert!(s.load(Some(&headless)).is_empty());
}

#[test]
fn updates_set_and_unset() {
    let mut m = one("A", "1");
    m.insert("B".to_string(), "2".to_string());
    let update = SecretsUpdate { set: one("C", "3"), unset: vec!["A".to_string(), "Z".to_string()] };
    apply_update(&mut m, &update);
    assert_eq!(m.keys(), vec!["B".to_string(), "C".to_string()]);
    let mut base = one("B", "env");
    overlay(&mut base, &m);
    assert_eq!(base.get("B"), Some(&"2".to_string()));
    assert_eq!(base.get("C"), Some(&"3".to_string()));
}

#[test]
fn hexadecimal_reads_back() {
    assert_eq!(hex(&vec![0, 255, 16]), "00ff10");
    assert_eq!(unhex("00FF10"), Some(vec![0, 255, 16]));
    assert_eq!(unhex("0"), None);
    assert_eq!(unhex("zz"), None);
    assert_eq!(generate_token(&vec![1, 2]), "0102");
}

#[test]
fn empty_maps_are_sealed_too() {
    let f = store(1).save(&TextMap::new()).unwrap();
    assert!(f.encrypted && f.plain.is_none());
    assert_eq!(f.nonce.as_ref().unwrap().len(), 48);
    // `{}` and a tag
    assert_eq!(f.data.as_ref().unwrap().len(), 2 * (2 + 16));
    assert!(store(1).load(Some(&f)).is_empty());
}

#[test]
fn damaged_files_are_told_apart() {
    let file = |nonce: &str| SecretFile {
        encrypted: true,
        nonce: Some(nonce.to_string()),
        data: Some("00".to_string()),
        plain: None,
    };
    let s = store(1);
    assert!(s.can_load(&file("zz")) && s.load(Some(&file("zz"))).is_empty());
    assert!(!s.can_load(&file("00")));
    assert!(!s.can_load(&file("0\u{e9}0")));
    let bare = SecretStore { dir: "/h".to_string(), key: None };
    assert!(bare.can_load(&file("00")) && bare.load(Some(&file("00"))).is_empty());
    assert!(is_readable("0g\u{e9}") && !is_readable("0\u{20ac}") && is_readable("0"));
}
