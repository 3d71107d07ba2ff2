//! Building blocks for multi-resolution icon containers.
//!
//! An icon consists of a set of entries: images that each have a particular
//! pixel size. Containers for the `.ico` and `.icns` file formats and for
//! favicon sets validate a requested size, rasterize a source image through a
//! pluggable resampling filter, check the produced raster's dimensions, and
//! collect the encoded entries for serialization. Each container tracks the
//! sizes (or output names) already used, so no two entries ever collide.

use vstd::prelude::*;

pub mod encode;
pub mod favicon;
pub mod icns;
pub mod ico;
pub mod resample;

verus! {

/// The error type for container and key operations.
#[derive(Debug, Clone, PartialEq, Eq)]
pub enum Error {
    /// An unsupported size was supplied to a key conversion or an entry
    /// operation.
    InvalidSize(u32),
    /// An entry of this pixel size is already present in the container.
    AlreadyIncluded(u32),
    /// An entry with this output name is already present in the container.
    DuplicateName(String),
    /// A resampling filter produced a raster whose width and height (the
    /// second and third fields) differ from the requested size (the first
    /// field).
    MismatchedDimensions(u32, u32, u32),
    /// A resampling filter could not produce a raster from the source image.
    Rasterization,
    /// A format encoder rejected the raster it was given.
    Encoding,
    /// An error of the underlying output stream.
    Io,
}

/// Anything that designates one target pixel size.
pub trait Size {
    /// The pixel size this value stands for.
    spec fn spec_size(&self) -> u32;

    /// Returns the pixel size this value stands for.
    fn size(&self) -> (r: u32)
        ensures
            r == self.spec_size(),
    ;
}

/// A plain pixel size used as an entry designator.
#[derive(Copy, Clone, Debug)]
pub struct Entry(pub u32);

impl Size for Entry {
    open spec fn spec_size(&self) -> u32 {
        self.0
    }

    fn size(&self) -> (r: u32) {
        self.0
    }
}

/// A raster image: a width, a height, and one RGBA byte quadruple per pixel,
/// in row-major order.
#[derive(Debug)]
pub struct Raster {
    width: u32,
    height: u32,
    data: Vec<u8>,
}

impl Raster {
    /// The width of the raster in pixels.
    pub closed spec fn spec_width(&self) -> u32 {
        self.width
    }

    /// The height of the raster in pixels.
    pub closed spec fn spec_height(&self) -> u32 {
        self.height
    }

    /// The raw RGBA bytes of the raster.
    pub closed spec fn spec_data(&self) -> Seq<u8> {
        self.data@
    }

    /// A raster is well formed when it holds exactly four bytes per pixel.
    pub open spec fn wf(&self) -> bool {
        self.spec_data().len() == 4 * (self.spec_width() as int) * (self.spec_height() as int)
    }

    /// Builds a raster from its dimensions and RGBA bytes; fails when the
    /// buffer does not hold exactly four bytes per pixel.
    pub fn new(width: u32, height: u32, data: Vec<u8>) -> (r: Option<Raster>)
        ensures
            r is Some <==> data@.len() == 4 * (width as int) * (height as int),
            r matches Some(ras) ==> ras.wf() && ras.spec_width() == width && ras.spec_height()
                == height && ras.spec_data() == data@,
    {
        proof {
            assert(4 * (width as int) * (height as int) <= 4 * 0xffff_ffff * 0xffff_ffff)
                by (nonlinear_arith)
                requires
                    width as int <= 0xffff_ffff,
                    height as int <= 0xffff_ffff,
            ;
        }
        let expected: u128 = 4u128 * (width as u128) * (height as u128);
        if data.len() as u128 == expected {
            Some(Raster { width, height, data })
        } else {
            None
        }
    }

    /// Returns the width of the raster in pixels.
    pub fn width(&self) -> (r: u32)
        ensures
            r == self.spec_width(),
    {
        self.width
    }

    /// Returns the height of the raster in pixels.
    pub fn height(&self) -> (r: u32)
        ensures
            r == self.spec_height(),
    {
        self.height
    }

    /// Returns the RGBA bytes of the raster.
    pub fn data(&self) -> (r: &Vec<u8>)
        ensures
            r@ == self.spec_data(),
    {
        &self.data
    }

    /// Consumes the raster and returns its RGBA bytes.
    pub fn into_data(self) -> (r: Vec<u8>)
        ensures
            r@ == self.spec_data(),
    {
        self.data
    }
}

/// A source image to build icon entries from: either a decoded raster bitmap
/// or a parsed vector scene. Containers never inspect it; they hand it to the
/// resampling filter.
pub enum SourceImage {
    /// A generic raster image.
    Raster(image::DynamicImage),
    /// An svg-encoded vector image.
    Svg(resvg::usvg::Tree),
}

#[verifier::external_type_specification]
#[verifier::external_body]
pub struct ExDynamicImage(image::DynamicImage);

#[verifier::external_type_specification]
#[verifier::external_body]
pub struct ExSvgTree(resvg::usvg::Tree);

impl SourceImage {
    /// Wraps a decoded raster bitmap.
    pub fn from_raster(raster: image::DynamicImage) -> SourceImage {
        SourceImage::Raster(raster)
    }

    /// Wraps a parsed vector scene.
    pub fn from_svg(svg: resvg::usvg::Tree) -> SourceImage {
        SourceImage::Svg(svg)
    }
}

/// A resampling strategy: materializes a raster of the requested size from a
/// source image. A filter may fail on sources or sizes it cannot handle; a
/// raster it does return need not have the requested dimensions — containers
/// check that themselves and report a mismatch.
pub trait Filter {
    /// Produces a raster of size `size`×`size` pixels from `source`.
    fn resample(&mut self, source: &SourceImage, size: u32) -> (r: Result<Raster, Error>)
        ensures
            r matches Ok(ras) ==> ras.wf(),
    ;
}

/// Returns whether `v` holds `x`.
pub(crate) fn contains_size(v: &Vec<u32>, x: u32) -> (r: bool)
    ensures
        r == v@.contains(x),
{
    let mut i: usize = 0;
    while i < v.len()
        invariant
            i <= v@.len(),
            forall|j: int| 0 <= j < i ==> v@[j] != x,
        decreases v@.len() - i,
    {
        if v[i] == x {
            return true;
        }
        i += 1;
    }
    false
}

} // verus!
