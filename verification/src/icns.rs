//! Structs for encoding `.icns` files.

use crate::contains_size;
use crate::Error;
use crate::Filter;
use crate::Raster;
use crate::Size;
use crate::SourceImage;
use vstd::prelude::*;

verus! {

#[verifier::external_type_specification]
#[verifier::external_body]
pub struct ExIconFamily(icns::IconFamily);

/// The pixel sizes of the icons stored in an icon family, in the order they
/// were added. An icon together with the mask element some icon types carry
/// counts as one icon of that size.
pub uninterp spec fn icns_family_sizes(family: icns::IconFamily) -> Seq<u32>;

/// The byte stream that icns::IconFamily::write emits for a family: a
/// function of the family's contents alone (the writer is deterministic and
/// draws on nothing else).
pub uninterp spec fn icns_family_bytes(family: icns::IconFamily) -> Seq<u8>;

/// Relies on icns::IconFamily::new: the new family holds no elements.
#[verifier::external_body]
fn icns_family_new() -> (r: icns::IconFamily)
    ensures
        icns_family_sizes(r) == Seq::<u32>::empty(),
{
    icns::IconFamily::new()
}

/// Relies on icns::Image::from_data, which accepts exactly four RGBA bytes
/// per pixel, and icns::IconFamily::add_icon, which picks the icon type for
/// the image's dimensions — every size this library validates has one — and
/// appends the icon's element(s). The run-length, mask and in-memory PNG
/// encodings cannot fail on an exact RGBA buffer of a supported size, so the
/// push always succeeds.
#[verifier::external_body]
fn icns_family_push(family: &mut icns::IconFamily, size: u32, data: Vec<u8>) -> (r: Result<
    (),
    Error,
>)
    requires
        icns_size_ok(size),
        data@.len() == 4 * (size as int) * (size as int),
    ensures
        r is Ok,
        icns_family_sizes(*final(family)) == icns_family_sizes(*old(family)).push(size),
{
    match icns::Image::from_data(icns::PixelFormat::RGBA, size, size, data) {
        Ok(image) => match family.add_icon(&image) {
            Ok(()) => Ok(()),
            Err(_) => Err(Error::Encoding),
        },
        Err(_) => Err(Error::Encoding),
    }
}

/// Relies on icns::IconFamily::write: it writes the four magic bytes "icns"
/// and a length word, then the elements, and writing to a byte vector cannot
/// fail. Families of at most seven icons of the supported sizes stay far
/// below the format's u32 length limit.
#[verifier::external_body]
fn icns_family_write(family: &icns::IconFamily, w: &mut Vec<u8>) -> (r: Result<(), Error>)
    requires
        icns_family_sizes(*family).no_duplicates(),
        forall|i: int|
            0 <= i < icns_family_sizes(*family).len() ==> icns_size_ok(
                #[trigger] icns_family_sizes(*family)[i],
            ),
    ensures
        r is Ok,
        final(w)@ == old(w)@ + icns_family_bytes(*family),
        final(w)@.len() >= old(w)@.len() + 8,
        final(w)@[old(w)@.len() as int] == 0x69u8,
        final(w)@[old(w)@.len() as int + 1] == 0x63u8,
        final(w)@[old(w)@.len() as int + 2] == 0x6eu8,
        final(w)@[old(w)@.len() as int + 3] == 0x73u8,
{
    match family.write(&mut *w) {
        Ok(()) => Ok(()),
        Err(_) => Err(Error::Io),
    }
}

/// Relies on icns::IconElement::new and the public `elements` field of
/// icns::IconFamily: rebuilding each element from its OSType and a copy of
/// its data payload yields a family with equal contents, which serializes to
/// the same bytes.
#[verifier::external_body]
fn icns_family_clone(family: &icns::IconFamily) -> (r: icns::IconFamily)
    ensures
        icns_family_sizes(r) == icns_family_sizes(*family),
        icns_family_bytes(r) == icns_family_bytes(*family),
{
    let mut elements = Vec::with_capacity(family.elements.len());
    for element in &family.elements {
        elements.push(icns::IconElement::new(element.ostype, element.data.clone()));
    }
    icns::IconFamily { elements }
}

/// The key type for `Icns`: the RGBA icon sizes the format supports.
#[derive(Copy, Clone, Debug, PartialEq, Eq, Hash)]
pub enum Key {
    Rgba16,
    Rgba32,
    Rgba64,
    Rgba128,
    Rgba256,
    Rgba512,
    Rgba1024,
}

/// The `.icns` format supports exactly seven square pixel sizes.
pub open spec fn icns_size_ok(size: u32) -> bool {
    ||| size == 16
    ||| size == 32
    ||| size == 64
    ||| size == 128
    ||| size == 256
    ||| size == 512
    ||| size == 1024
}

/// The key that a pixel size in the format's domain converts to.
pub open spec fn spec_key_of(size: u32) -> Key {
    if size == 16 {
        Key::Rgba16
    } else if size == 32 {
        Key::Rgba32
    } else if size == 64 {
        Key::Rgba64
    } else if size == 128 {
        Key::Rgba128
    } else if size == 256 {
        Key::Rgba256
    } else if size == 512 {
        Key::Rgba512
    } else {
        Key::Rgba1024
    }
}

impl Size for Key {
    open spec fn spec_size(&self) -> u32 {
        match self {
            Key::Rgba16 => 16,
            Key::Rgba32 => 32,
            Key::Rgba64 => 64,
            Key::Rgba128 => 128,
            Key::Rgba256 => 256,
            Key::Rgba512 => 512,
            Key::Rgba1024 => 1024,
        }
    }

    fn size(&self) -> (r: u32) {
        self.as_size()
    }
}

impl Key {
    /// Returns the pixel size this key stands for. Total: every key denotes
    /// one of the seven supported sizes.
    pub fn as_size(&self) -> (r: u32)
        ensures
            r == self.spec_size(),
    {
        match self {
            Key::Rgba16 => 16,
            Key::Rgba32 => 32,
            Key::Rgba64 => 64,
            Key::Rgba128 => 128,
            Key::Rgba256 => 256,
            Key::Rgba512 => 512,
            Key::Rgba1024 => 1024,
        }
    }

    /// Converts a pixel size to a key. The seven supported sizes convert to
    /// the key that denotes them; every other size is rejected with
    /// `Error::InvalidSize`, and no key results.
    pub fn try_from(size: u32) -> (r: Result<Key, Error>)
        ensures
            icns_size_ok(size) ==> r == Ok::<Key, Error>(spec_key_of(size)),
            !icns_size_ok(size) ==> r == Err::<Key, Error>(Error::InvalidSize(size)),
    {
        match size {
            16 => Ok(Key::Rgba16),
            32 => Ok(Key::Rgba32),
            64 => Ok(Key::Rgba64),
            128 => Ok(Key::Rgba128),
            256 => Ok(Key::Rgba256),
            512 => Ok(Key::Rgba512),
            1024 => Ok(Key::Rgba1024),
            _ => Err(Error::InvalidSize(size)),
        }
    }
}

/// Round-trip law: every size in the `.icns` domain converts to the key that
/// converts back to the same size.
pub proof fn lemma_icns_key_roundtrip(size: u32)
    requires
        icns_size_ok(size),
    ensures
        spec_key_of(size).spec_size() == size,
{
}

/// Rejection law: a size outside the `.icns` domain never equals the size any
/// key denotes, so no key can stand for it.
pub proof fn lemma_icns_key_rejects(size: u32, key: Key)
    requires
        !icns_size_ok(size),
    ensures
        key.spec_size() != size,
{
}

/// The sizes that a sequence of `.icns` keys denotes.
pub open spec fn key_sizes(keys: Seq<Key>) -> Seq<u32> {
    keys.map_values(|k: Key| k.spec_size())
}

/// An encoder for the `.icns` file format.
pub struct Icns {
    icon_family: icns::IconFamily,
    keys: Vec<u32>,
}

impl Clone for Icns {
    fn clone(&self) -> (r: Self)
        ensures
            r.sizes() == self.sizes(),
            r.encoded() == self.encoded(),
            self.wf() ==> r.wf(),
    {
        let mut keys: Vec<u32> = Vec::with_capacity(self.keys.len());
        let mut i: usize = 0;
        while i < self.keys.len()
            invariant
                i <= self.keys@.len(),
                keys@ == self.keys@.take(i as int),
            decreases self.keys@.len() - i,
        {
            keys.push(self.keys[i]);
            proof {
                self.keys@.lemma_take_succ_push(i as int);
            }
            i += 1;
        }
        proof {
            assert(self.keys@.take(self.keys@.len() as int) =~= self.keys@);
        }
        Icns { icon_family: icns_family_clone(&self.icon_family), keys }
    }
}

impl Icns {
    /// The pixel sizes of the stored entries, in insertion order.
    pub closed spec fn sizes(&self) -> Seq<u32> {
        self.keys@
    }

    /// The `.icns` serialization of the container's stored entries: what one
    /// call of `write` appends.
    pub closed spec fn encoded(&self) -> Seq<u8> {
        icns_family_bytes(self.icon_family)
    }

    /// The container is well formed: the underlying icon family holds icons
    /// of exactly the tracked sizes, no size repeats, and every size is in
    /// the format's domain.
    pub closed spec fn wf(&self) -> bool {
        &&& icns_family_sizes(self.icon_family) == self.keys@
        &&& self.keys@.no_duplicates()
        &&& forall|i: int| 0 <= i < self.keys@.len() ==> icns_size_ok(#[trigger] self.keys@[i])
    }

    /// Creates a new, empty icon.
    pub fn new() -> (r: Icns)
        ensures
            r.wf(),
            r.sizes() == Seq::<u32>::empty(),
    {
        Icns::with_capacity(0)
    }

    /// Creates a new, empty icon, sized for at least `capacity` entries.
    pub fn with_capacity(capacity: usize) -> (r: Icns)
        ensures
            r.wf(),
            r.sizes() == Seq::<u32>::empty(),
    {
        Icns { icon_family: icns_family_new(), keys: Vec::with_capacity(capacity) }
    }

    /// Returns the number of entries stored so far.
    pub fn len(&self) -> (r: usize)
        ensures
            r == self.sizes().len(),
    {
        self.keys.len()
    }

    /// Returns whether an entry of the given pixel size is already stored.
    pub fn contains(&self, size: u32) -> (r: bool)
        ensures
            r == self.sizes().contains(size),
    {
        contains_size(&self.keys, size)
    }

    /// Adds an already-rasterized entry. Fails with `AlreadyIncluded` when an
    /// entry of the key's size is present and with `MismatchedDimensions`
    /// when the raster is not a square of exactly the key's size; a fresh
    /// size with an exact raster always succeeds. On failure the container is
    /// unchanged; on success the key's size is appended.
    pub fn add_raster(&mut self, raster: Raster, key: Key) -> (r: Result<(), Error>)
        requires
            old(self).wf(),
            raster.wf(),
        ensures
            final(self).wf(),
            old(self).sizes().contains(key.spec_size()) ==> r == Err::<(), Error>(
                Error::AlreadyIncluded(key.spec_size()),
            ),
            !old(self).sizes().contains(key.spec_size()) && (raster.spec_width()
                != key.spec_size() || raster.spec_height() != key.spec_size()) ==> r == Err::<
                (),
                Error,
            >(Error::MismatchedDimensions(
                key.spec_size(),
                raster.spec_width(),
                raster.spec_height(),
            )),
            !old(self).sizes().contains(key.spec_size()) && raster.spec_width() == key.spec_size()
                && raster.spec_height() == key.spec_size() ==> r is Ok,
            r is Ok ==> final(self).sizes() == old(self).sizes().push(key.spec_size()),
            r is Err ==> final(self).sizes() == old(self).sizes(),
    {
        let size = key.as_size();
        if contains_size(&self.keys, size) {
            return Err(Error::AlreadyIncluded(size));
        }
        let w = raster.width();
        let h = raster.height();
        if w != size || h != size {
            return Err(Error::MismatchedDimensions(size, w, h));
        }
        let data = raster.into_data();
        match icns_family_push(&mut self.icon_family, size, data) {
            Ok(()) => {
                self.keys.push(size);
                proof {
                    assert forall|i: int, j: int|
                        0 <= i < final(self).keys@.len() && 0 <= j < final(self).keys@.len() && i
                            != j implies final(self).keys@[i] != final(self).keys@[j] by {
                        if i < old(self).keys@.len() && j < old(self).keys@.len() {
                        } else if j == old(self).keys@.len() {
                            assert(old(self).keys@[i] == old(self).keys@.push(size)[i]);
                        } else {
                            assert(old(self).keys@[j] == old(self).keys@.push(size)[j]);
                        }
                    }
                }
                Ok(())
            },
            Err(e) => Err(e),
        }
    }

    /// Adds an individual entry: resolves the key to its pixel size, checks
    /// it is not already used, rasterizes the source through the filter, and
    /// stores the encoded result. A duplicate size fails with
    /// `AlreadyIncluded` before the filter is invoked; a filter failure
    /// propagates unchanged; on any failure the container is unchanged.
    pub fn add_entry<F: Filter>(
        &mut self,
        filter: &mut F,
        source: &SourceImage,
        key: Key,
    ) -> (r: Result<(), Error>)
        requires
            old(self).wf(),
        ensures
            final(self).wf(),
            old(self).sizes().contains(key.spec_size()) ==> r == Err::<(), Error>(
                Error::AlreadyIncluded(key.spec_size()),
            ),
            r is Ok ==> final(self).sizes() == old(self).sizes().push(key.spec_size()),
            r is Err ==> final(self).sizes() == old(self).sizes(),
    {
        let size = key.as_size();
        if contains_size(&self.keys, size) {
            return Err(Error::AlreadyIncluded(size));
        }
        match filter.resample(source, size) {
            Ok(raster) => self.add_raster(raster, key),
            Err(e) => Err(e),
        }
    }

    /// Adds a series of entries, in order, stopping at the first failure.
    /// Entries added before the failing key remain in the container — there
    /// is no rollback. When the failing key's size was already present at
    /// that point, the error is `AlreadyIncluded` and the later keys are
    /// never attempted.
    pub fn add_entries<F: Filter>(
        &mut self,
        filter: &mut F,
        source: &SourceImage,
        entries: Vec<Key>,
    ) -> (r: Result<(), Error>)
        requires
            old(self).wf(),
        ensures
            final(self).wf(),
            r is Ok ==> final(self).sizes() == old(self).sizes() + key_sizes(entries@),
            r matches Err(e) ==> exists|i: int|
                0 <= i < entries@.len() && final(self).sizes() == old(self).sizes() + key_sizes(
                    entries@.take(i),
                ) && (final(self).sizes().contains(#[trigger] entries@[i].spec_size()) ==> e
                    == Error::AlreadyIncluded(entries@[i].spec_size())),
    {
        let mut idx: usize = 0;
        while idx < entries.len()
            invariant
                old(self).wf(),
                idx <= entries@.len(),
                self.wf(),
                self.sizes() == old(self).sizes() + key_sizes(entries@.take(idx as int)),
            decreases entries@.len() - idx,
        {
            let key = entries[idx];
            match self.add_entry(filter, source, key) {
                Ok(()) => {
                    proof {
                        entries@.lemma_take_succ_push(idx as int);
                        assert(key_sizes(entries@.take(idx as int + 1)) =~= key_sizes(
                            entries@.take(idx as int),
                        ).push(key.spec_size()));
                        assert(self.sizes() =~= old(self).sizes() + key_sizes(
                            entries@.take(idx as int + 1),
                        ));
                    }
                    idx += 1;
                },
                Err(e) => {
                    proof {
                        assert(0 <= idx < entries@.len() && self.sizes() == old(self).sizes()
                            + key_sizes(entries@.take(idx as int)) && (self.sizes().contains(
                            entries@[idx as int].spec_size(),
                        ) ==> e == Error::AlreadyIncluded(entries@[idx as int].spec_size())));
                    }
                    return Err(e);
                },
            }
        }
        proof {
            assert(entries@.take(entries@.len() as int) =~= entries@);
        }
        Ok(())
    }

    /// Uniqueness law: a well-formed container never holds two entries of the
    /// same pixel size, and every stored size is in the format's domain.
    pub proof fn lemma_sizes_unique(&self)
        requires
            self.wf(),
        ensures
            self.sizes().no_duplicates(),
            forall|i: int|
                0 <= i < self.sizes().len() ==> icns_size_ok(#[trigger] self.sizes()[i]),
    {
    }

    /// Serializes all stored entries, in insertion order, into the `.icns`
    /// binary container structure and appends exactly those bytes to `w`. The
    /// container is left untouched and may be written again, with the same
    /// result. The appended bytes begin with the eight-byte file header,
    /// whose first four bytes are the magic "icns".
    pub fn write(&mut self, w: &mut Vec<u8>) -> (r: Result<(), Error>)
        requires
            old(self).wf(),
        ensures
            *final(self) == *old(self),
            r is Ok,
            final(w)@ == old(w)@ + old(self).encoded(),
            old(self).encoded().len() >= 8,
            old(self).encoded()[0] == 0x69u8,
            old(self).encoded()[1] == 0x63u8,
            old(self).encoded()[2] == 0x6eu8,
            old(self).encoded()[3] == 0x73u8,
    {
        let ghost pre = w@;
        let r = icns_family_write(&self.icon_family, w);
        proof {
            assert(w@ == pre + self.encoded());
            assert forall|k: int| 0 <= k < 4 implies self.encoded()[k] == w@[pre.len() + k] by {
                assert(w@[pre.len() + k] == (pre + self.encoded())[pre.len() + k]);
            }
        }
        r
    }
}

} // verus!
