//! Common resampling filters for raster sources.
//!
//! Each filter materializes a square raster of the requested size from a
//! raster source. Vector sources need a renderer; none is bundled here, so
//! the filters decline them with `Error::Rasterization`, as they decline
//! sizes they cannot produce (zero, or beyond 16384 pixels a side).

use crate::Error;
use crate::Filter;
use crate::Raster;
use crate::SourceImage;
use vstd::prelude::*;

verus! {

/// The resampling kernels the bundled filters use.
enum Kind {
    Nearest,
    Linear,
    Cubic,
}

/// Relies on image::DynamicImage::resize_exact, which samples the source at
/// exactly the requested dimensions (the aspect ratio is ignored), and on
/// image::DynamicImage::to_rgba8, whose raw buffer holds exactly four bytes
/// per pixel. The size bound keeps the intermediate buffers the resampler
/// allocates within address-space limits.
#[verifier::external_body]
fn resize_to_rgba(img: &image::DynamicImage, size: u32, kind: Kind) -> (r: Vec<u8>)
    requires
        1 <= size <= 16384,
    ensures
        r@.len() == 4 * (size as int) * (size as int),
{
    let f = match kind {
        Kind::Nearest => image::imageops::FilterType::Nearest,
        Kind::Linear => image::imageops::FilterType::Triangle,
        Kind::Cubic => image::imageops::FilterType::CatmullRom,
    };
    img.resize_exact(size, size, f).to_rgba8().into_raw()
}

/// Resamples a raster source to a square raster of exactly the requested
/// size; declines vector sources and sizes outside 1..=16384, and succeeds on
/// everything else.
fn resample_source(source: &SourceImage, size: u32, kind: Kind) -> (r: Result<Raster, Error>)
    ensures
        r matches Ok(ras) ==> ras.wf() && ras.spec_width() == size && ras.spec_height() == size,
        r matches Err(e) ==> e == Error::Rasterization,
        source is Raster && 1 <= size <= 16384 ==> r is Ok,
{
    if size == 0 || size > 16384 {
        return Err(Error::Rasterization);
    }
    match source {
        SourceImage::Raster(img) => {
            let data = resize_to_rgba(img, size, kind);
            match Raster::new(size, size, data) {
                Some(ras) => Ok(ras),
                None => Err(Error::Rasterization),
            }
        },
        SourceImage::Svg(_) => Err(Error::Rasterization),
    }
}

/// Nearest-neighbor resampling: picks the nearest source pixel.
pub struct Nearest;

/// Linear resampling: a triangle (bilinear) kernel.
pub struct Linear;

/// Cubic resampling: a Catmull-Rom kernel.
pub struct Cubic;

impl Filter for Nearest {
    fn resample(&mut self, source: &SourceImage, size: u32) -> (r: Result<Raster, Error>)
        ensures
            r matches Ok(ras) ==> ras.spec_width() == size && ras.spec_height() == size,
            source is Raster && 1 <= size <= 16384 ==> r is Ok,
    {
        resample_source(source, size, Kind::Nearest)
    }
}

impl Filter for Linear {
    fn resample(&mut self, source: &SourceImage, size: u32) -> (r: Result<Raster, Error>)
        ensures
            r matches Ok(ras) ==> ras.spec_width() == size && ras.spec_height() == size,
            source is Raster && 1 <= size <= 16384 ==> r is Ok,
    {
        resample_source(source, size, Kind::Linear)
    }
}

impl Filter for Cubic {
    fn resample(&mut self, source: &SourceImage, size: u32) -> (r: Result<Raster, Error>)
        ensures
            r matches Ok(ras) ==> ras.spec_width() == size && ras.spec_height() == size,
            source is Raster && 1 <= size <= 16384 ==> r is Ok,
    {
        resample_source(source, size, Kind::Cubic)
    }
}

} // verus!
