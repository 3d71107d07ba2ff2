//! Key validation and round-trip behavior for each format.

use iconwriter::favicon;
use iconwriter::icns;
use iconwriter::ico;
use iconwriter::Error;
use iconwriter::Size;

#[test]
fn ico_key_roundtrip_all_valid_sizes() {
    for size in 1u32..=256 {
        let key = ico::Key::try_from(size).expect("size in domain must convert");
        assert_eq!(key.as_size(), size);
        assert_eq!(key.size(), size);
    }
}

#[test]
fn ico_key_sentinel_is_256() {
    let key = ico::Key::try_from(256).unwrap();
    assert_eq!(key, ico::Key(0));
    assert_eq!(key.as_size(), 256);
}

#[test]
fn ico_key_rejects_out_of_domain() {
    for size in [0u32, 257, 300, 1024, u32::MAX] {
        match ico::Key::try_from(size) {
            Err(Error::InvalidSize(s)) => assert_eq!(s, size),
            other => panic!("expected InvalidSize({}), got {:?}", size, other),
        }
    }
}

#[test]
fn icns_key_roundtrip_all_valid_sizes() {
    for size in [16u32, 32, 64, 128, 256, 512, 1024] {
        let key = icns::Key::try_from(size).expect("size in domain must convert");
        assert_eq!(key.as_size(), size);
        assert_eq!(key.size(), size);
    }
}

#[test]
fn icns_key_rejects_out_of_domain() {
    for size in [0u32, 1, 15, 17, 48, 100, 2048] {
        match icns::Key::try_from(size) {
            Err(Error::InvalidSize(s)) => assert_eq!(s, size),
            other => panic!("expected InvalidSize({}), got {:?}", size, other),
        }
    }
}

#[test]
fn favicon_key_accepts_positive_sizes_and_rejects_zero() {
    let key = favicon::Key::new(12345, "big.png".to_string()).unwrap();
    assert_eq!(key.as_size(), 12345);
    assert_eq!(key.name(), "big.png");
    match favicon::Key::new(0, "zero.png".to_string()) {
        Err(Error::InvalidSize(0)) => {}
        other => panic!("expected InvalidSize(0), got {:?}", other),
    }
}

#[test]
fn entry_designates_its_size() {
    let entry = iconwriter::Entry(32);
    assert_eq!(entry.size(), 32);
}
