//! Favicon-set behavior: per-name uniqueness and batch adds.

use iconwriter::favicon;
use iconwriter::resample;
use iconwriter::Error;
use iconwriter::SourceImage;

fn raster_source(side: u32) -> SourceImage {
    SourceImage::from_raster(image::DynamicImage::new_rgba8(side, side))
}

fn key(size: u32, name: &str) -> favicon::Key {
    favicon::Key::new(size, name.to_string()).unwrap()
}

#[test]
fn test_favicon() {
    let hydra = raster_source(256);
    let bbox = raster_source(100);

    let mut icon = favicon::Favicon::new();
    if let Err(err) = icon.add_entry(&mut resample::Nearest, &hydra, key(16, "favicon-16.png")) {
        panic!("{:?}", err);
    }

    let entries = vec![key(32, "favicon-32.png"), key(64, "favicon-64.png")];
    if let Err(err) = icon.add_entries(&mut resample::Cubic, &bbox, entries) {
        panic!("{:?}", err);
    }

    assert_eq!(icon.len(), 3);
    assert_eq!(icon.name_at(0), "favicon-16.png");
    assert_eq!(icon.size_at(0), 16);
    assert_eq!(icon.name_at(1), "favicon-32.png");
    assert_eq!(icon.size_at(1), 32);
    assert_eq!(icon.name_at(2), "favicon-64.png");
    assert_eq!(icon.size_at(2), 64);
    for i in 0..3 {
        let data = icon.data_at(i);
        assert_eq!(&data[0..4], &[0x89u8, b'P', b'N', b'G']);
    }
}

#[test]
fn favicon_same_size_different_names_both_accepted() {
    let img = raster_source(64);
    let mut icon = favicon::Favicon::new();
    icon.add_entry(&mut resample::Nearest, &img, key(32, "one.png"))
        .unwrap();
    icon.add_entry(&mut resample::Nearest, &img, key(32, "two.png"))
        .unwrap();
    assert_eq!(icon.len(), 2);
    assert_eq!(icon.size_at(0), 32);
    assert_eq!(icon.size_at(1), 32);
}

#[test]
fn favicon_rejects_duplicate_name() {
    let img = raster_source(64);
    let mut icon = favicon::Favicon::new();
    icon.add_entry(&mut resample::Nearest, &img, key(16, "icon.png"))
        .unwrap();
    match icon.add_entry(&mut resample::Nearest, &img, key(48, "icon.png")) {
        Err(Error::DuplicateName(name)) => assert_eq!(name, "icon.png"),
        other => panic!("expected DuplicateName, got {:?}", other),
    }
    assert_eq!(icon.len(), 1);
    assert!(icon.contains_entry_name(&"icon.png".to_string()));
    assert!(!icon.contains_entry_name(&"other.png".to_string()));
}

#[test]
fn favicon_batch_stops_at_first_duplicate_name() {
    let img = raster_source(64);
    let mut icon = favicon::Favicon::new();
    let entries = vec![
        key(16, "a.png"),
        key(32, "a.png"),
        key(64, "c.png"),
    ];
    match icon.add_entries(&mut resample::Nearest, &img, entries) {
        Err(Error::DuplicateName(name)) => assert_eq!(name, "a.png"),
        other => panic!("expected DuplicateName, got {:?}", other),
    }
    assert_eq!(icon.len(), 1);
    assert_eq!(icon.name_at(0), "a.png");
    assert_eq!(icon.size_at(0), 16);
}

#[test]
fn favicon_empty_batch_always_succeeds() {
    let img = raster_source(16);
    let mut icon = favicon::Favicon::new();
    assert!(icon
        .add_entries(&mut resample::Nearest, &img, vec![])
        .is_ok());
    assert_eq!(icon.len(), 0);
}
