//! Container behavior: duplicate rejection, dimension checks, batch adds,
//! and serialization.

use iconwriter::icns;
use iconwriter::ico;
use iconwriter::resample;
use iconwriter::Error;
use iconwriter::Filter;
use iconwriter::Raster;
use iconwriter::SourceImage;

fn raster_source(side: u32) -> SourceImage {
    SourceImage::from_raster(image::DynamicImage::new_rgba8(side, side))
}

/// A filter that violates its contract: it always returns a 10×10 raster,
/// whatever size was requested.
struct WrongSizeFilter;

impl Filter for WrongSizeFilter {
    fn resample(&mut self, _source: &SourceImage, _size: u32) -> Result<Raster, Error> {
        Ok(Raster::new(10, 10, vec![0u8; 4 * 10 * 10]).unwrap())
    }
}

/// A filter that fails on every source.
struct FailingFilter;

impl Filter for FailingFilter {
    fn resample(&mut self, _source: &SourceImage, _size: u32) -> Result<Raster, Error> {
        Err(Error::Rasterization)
    }
}

/// A filter that counts its invocations and otherwise resamples nearest.
struct CountingFilter {
    calls: usize,
}

impl Filter for CountingFilter {
    fn resample(&mut self, source: &SourceImage, size: u32) -> Result<Raster, Error> {
        self.calls += 1;
        resample::Nearest.resample(source, size)
    }
}

#[test]
fn test_ico() {
    let img = raster_source(256);
    let mut icon = ico::Ico::new();

    let keys = vec![ico::Key(32), ico::Key(64)];
    if let Err(err) = icon.add_entries(&mut resample::Nearest, &img, keys) {
        panic!("{:?}", err);
    }
    if let Err(err) = icon.add_entry(&mut resample::Nearest, &img, ico::Key(128)) {
        panic!("{:?}", err);
    }
    assert_eq!(icon.len(), 3);

    let mut out: Vec<u8> = Vec::new();
    if let Err(err) = icon.write(&mut out) {
        panic!("{:?}", err);
    }
    assert!(out.len() > 6);
}

#[test]
fn ico_scenario_duplicate_then_write() {
    let img = raster_source(256);
    let mut icon = ico::Ico::new();

    icon.add_entries(
        &mut resample::Nearest,
        &img,
        vec![ico::Key(32), ico::Key(64)],
    )
    .unwrap();
    assert_eq!(icon.len(), 2);
    assert!(icon.contains(32));
    assert!(icon.contains(64));
    assert!(!icon.contains(128));

    match icon.add_entry(&mut resample::Nearest, &img, ico::Key(32)) {
        Err(Error::AlreadyIncluded(32)) => {}
        other => panic!("expected AlreadyIncluded(32), got {:?}", other),
    }
    assert_eq!(icon.len(), 2);

    let mut out: Vec<u8> = Vec::new();
    icon.write(&mut out).unwrap();
    assert!(!out.is_empty());
    // The ICONDIR header: reserved word zero, resource type one (icons),
    // then the entry count.
    assert_eq!(&out[0..4], &[0u8, 0, 1, 0]);
    assert_eq!(out[4], 2);
    assert_eq!(out[5], 0);
}

#[test]
fn ico_rejects_mismatched_dimensions() {
    let img = raster_source(64);
    let mut icon = ico::Ico::new();
    match icon.add_entry(&mut WrongSizeFilter, &img, ico::Key(32)) {
        Err(Error::MismatchedDimensions(32, 10, 10)) => {}
        other => panic!("expected MismatchedDimensions(32, 10, 10), got {:?}", other),
    }
    assert_eq!(icon.len(), 0);
}

#[test]
fn ico_propagates_filter_failure_unchanged() {
    let img = raster_source(64);
    let mut icon = ico::Ico::new();
    icon.add_entry(&mut resample::Nearest, &img, ico::Key(16))
        .unwrap();
    match icon.add_entry(&mut FailingFilter, &img, ico::Key(32)) {
        Err(Error::Rasterization) => {}
        other => panic!("expected Rasterization, got {:?}", other),
    }
    assert_eq!(icon.len(), 1);
}

#[test]
fn ico_batch_stops_at_first_duplicate() {
    let img = raster_source(256);
    let mut icon = ico::Ico::new();
    icon.add_entry(&mut resample::Nearest, &img, ico::Key(16))
        .unwrap();

    let mut filter = CountingFilter { calls: 0 };
    // The middle key duplicates the entry already present: the first key is
    // added, the second fails before its rasterization, the third is never
    // attempted.
    let keys = vec![ico::Key(32), ico::Key(16), ico::Key(64)];
    match icon.add_entries(&mut filter, &img, keys) {
        Err(Error::AlreadyIncluded(16)) => {}
        other => panic!("expected AlreadyIncluded(16), got {:?}", other),
    }
    assert_eq!(icon.len(), 2);
    assert!(icon.contains(32));
    assert!(!icon.contains(64));
    assert_eq!(filter.calls, 1);
}

#[test]
fn test_icns() {
    let img = raster_source(256);
    let mut icon = icns::Icns::new();

    let entries = vec![icns::Key::Rgba32, icns::Key::Rgba64];
    if let Err(err) = icon.add_entries(&mut resample::Nearest, &img, entries) {
        panic!("{:?}", err);
    }
    if let Err(err) = icon.add_entry(&mut resample::Nearest, &img, icns::Key::Rgba128) {
        panic!("{:?}", err);
    }
    assert_eq!(icon.len(), 3);

    let mut out: Vec<u8> = Vec::new();
    if let Err(err) = icon.write(&mut out) {
        panic!("{:?}", err);
    }
    assert_eq!(&out[0..4], b"icns");
    assert!(out.len() > 8);
}

#[test]
fn icns_rejects_duplicate_size() {
    let img = raster_source(128);
    let mut icon = icns::Icns::new();
    icon.add_entry(&mut resample::Linear, &img, icns::Key::Rgba32)
        .unwrap();
    assert_eq!(icon.len(), 1);
    match icon.add_entry(&mut resample::Linear, &img, icns::Key::Rgba32) {
        Err(Error::AlreadyIncluded(32)) => {}
        other => panic!("expected AlreadyIncluded(32), got {:?}", other),
    }
    assert_eq!(icon.len(), 1);
    assert!(icon.contains(32));
}

#[test]
fn icns_rejects_mismatched_dimensions() {
    let img = raster_source(64);
    let mut icon = icns::Icns::new();
    match icon.add_entry(&mut WrongSizeFilter, &img, icns::Key::Rgba64) {
        Err(Error::MismatchedDimensions(64, 10, 10)) => {}
        other => panic!("expected MismatchedDimensions(64, 10, 10), got {:?}", other),
    }
    assert_eq!(icon.len(), 0);
}

#[test]
fn bundled_filters_produce_requested_dimensions() {
    let img = raster_source(200);
    for size in [1u32, 16, 31, 256, 300] {
        let raster = resample::Nearest.resample(&img, size).unwrap();
        assert_eq!(raster.width(), size);
        assert_eq!(raster.height(), size);
        assert_eq!(raster.data().len(), 4 * (size as usize) * (size as usize));
        let raster = resample::Cubic.resample(&img, size).unwrap();
        assert_eq!(raster.width(), size);
        assert_eq!(raster.height(), size);
    }
}

#[test]
fn bundled_filters_decline_impossible_sizes() {
    let img = raster_source(8);
    match resample::Linear.resample(&img, 0) {
        Err(Error::Rasterization) => {}
        other => panic!("expected Rasterization, got {:?}", other),
    }
}

#[test]
fn png_encoding_starts_with_signature() {
    let raster = Raster::new(3, 2, vec![200u8; 4 * 3 * 2]).unwrap();
    let bytes = iconwriter::encode::png(&raster).unwrap();
    assert!(bytes.len() >= 8);
    assert_eq!(&bytes[0..4], &[0x89u8, b'P', b'N', b'G']);
}

#[test]
fn raster_requires_exact_buffer_length() {
    assert!(Raster::new(4, 4, vec![0u8; 64]).is_some());
    assert!(Raster::new(4, 4, vec![0u8; 63]).is_none());
    assert!(Raster::new(4, 4, vec![0u8; 65]).is_none());
}

#[test]
fn clones_are_independent_and_equal() {
    let img = raster_source(128);
    let mut icon = ico::Ico::new();
    icon.add_entries(
        &mut resample::Nearest,
        &img,
        vec![ico::Key(16), ico::Key(24)],
    )
    .unwrap();

    let mut copy = icon.clone();
    let mut a: Vec<u8> = Vec::new();
    let mut b: Vec<u8> = Vec::new();
    icon.write(&mut a).unwrap();
    copy.write(&mut b).unwrap();
    assert_eq!(a, b);

    copy.add_entry(&mut resample::Nearest, &img, ico::Key(48))
        .unwrap();
    assert_eq!(copy.len(), 3);
    assert_eq!(icon.len(), 2);

    let mut icns_icon = icns::Icns::new();
    icns_icon
        .add_entry(&mut resample::Nearest, &img, icns::Key::Rgba32)
        .unwrap();
    let mut icns_copy = icns_icon.clone();
    let mut c: Vec<u8> = Vec::new();
    let mut d: Vec<u8> = Vec::new();
    icns_icon.write(&mut c).unwrap();
    icns_copy.write(&mut d).unwrap();
    assert_eq!(c, d);
    icns_copy
        .add_entry(&mut resample::Nearest, &img, icns::Key::Rgba64)
        .unwrap();
    assert_eq!(icns_copy.len(), 2);
    assert_eq!(icns_icon.len(), 1);
}

#[test]
fn writes_are_repeatable_and_equal() {
    let img = raster_source(128);
    let mut icon = ico::Ico::new();
    icon.add_entry(&mut resample::Nearest, &img, ico::Key(16))
        .unwrap();
    let mut first: Vec<u8> = Vec::new();
    let mut second: Vec<u8> = Vec::new();
    icon.write(&mut first).unwrap();
    icon.write(&mut second).unwrap();
    assert_eq!(first, second);
    assert_eq!(icon.len(), 1);

    let mut icns_icon = icns::Icns::new();
    icns_icon
        .add_entry(&mut resample::Nearest, &img, icns::Key::Rgba16)
        .unwrap();
    let mut third: Vec<u8> = Vec::new();
    let mut fourth: Vec<u8> = Vec::new();
    icns_icon.write(&mut third).unwrap();
    icns_icon.write(&mut fourth).unwrap();
    assert_eq!(third, fourth);
}

#[test]
fn empty_batch_always_succeeds() {
    let img = raster_source(16);
    let mut icon = ico::Ico::new();
    assert!(icon.add_entries(&mut resample::Nearest, &img, vec![]).is_ok());
    let mut icns_icon = icns::Icns::new();
    assert!(icns_icon
        .add_entries(&mut resample::Nearest, &img, vec![])
        .is_ok());
    assert_eq!(icon.len(), 0);
    assert_eq!(icns_icon.len(), 0);
}
