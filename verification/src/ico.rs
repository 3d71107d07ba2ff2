//! Structs for encoding `.ico` files.

use crate::contains_size;
use crate::Error;
use crate::Filter;
use crate::Raster;
use crate::Size;
use crate::SourceImage;
use vstd::prelude::*;

verus! {

#[verifier::external_type_specification]
#[verifier::external_body]
pub struct ExIconDir(ico::IconDir);

/// The pixel sizes of the entries stored in an icon directory, in the order
/// they were added. Adding an icon and its mask counts as one entry of the
/// icon's size.
pub uninterp spec fn ico_dir_sizes(dir: ico::IconDir) -> Seq<u32>;

/// Whether the directory was created for icon resources (as opposed to
/// cursor resources).
pub uninterp spec fn ico_dir_is_icons(dir: ico::IconDir) -> bool;

/// The byte stream that ico::IconDir::write emits for a directory: a function
/// of the directory's contents alone (the writer is deterministic and draws
/// on nothing else).
pub uninterp spec fn ico_dir_bytes(dir: ico::IconDir) -> Seq<u8>;

/// Relies on ico::IconDir::new, called with ico::ResourceType::Icon: the new
/// directory holds icon resources and no entries.
#[verifier::external_body]
fn ico_dir_new() -> (r: ico::IconDir)
    ensures
        ico_dir_is_icons(r),
        ico_dir_sizes(r) == Seq::<u32>::empty(),
{
    ico::IconDir::new(ico::ResourceType::Icon)
}

/// Relies on ico::IconImage::from_rgba_data, ico::IconDirEntry::encode and
/// ico::IconDir::add_entry: the image constructor accepts exactly four bytes
/// per pixel of a nonzero-sided square, the encoder produces an icon-resource
/// entry of the image's dimensions, and adding an icon entry to an icon
/// directory appends it. The encoder writes a BMP or PNG into an in-memory
/// buffer and cannot fail on a nonzero-sided square with an exact RGBA
/// buffer, so the push always succeeds.
#[verifier::external_body]
fn ico_dir_push(dir: &mut ico::IconDir, size: u32, data: Vec<u8>) -> (r: Result<(), Error>)
    requires
        ico_dir_is_icons(*old(dir)),
        1 <= size <= 256,
        data@.len() == 4 * (size as int) * (size as int),
    ensures
        ico_dir_is_icons(*final(dir)),
        r is Ok,
        ico_dir_sizes(*final(dir)) == ico_dir_sizes(*old(dir)).push(size),
{
    let image = ico::IconImage::from_rgba_data(size, size, data);
    match ico::IconDirEntry::encode(&image) {
        Ok(entry) => {
            dir.add_entry(entry);
            Ok(())
        },
        Err(_) => Err(Error::Encoding),
    }
}

/// Relies on ico::IconDir::write: it starts with the six-byte ICONDIR header —
/// a zero reserved word, the resource type (one, for icons), and the entry
/// count — and writing to a byte vector cannot fail when the directory holds
/// at most 0xFFFF entries. Entries with distinct sizes in 1..=256, each
/// encoded from an image of side at most 256, number at most 256 and keep the
/// total data size far below the format's u32 offset limit.
#[verifier::external_body]
fn ico_dir_write(dir: &ico::IconDir, w: &mut Vec<u8>) -> (r: Result<(), Error>)
    requires
        ico_dir_is_icons(*dir),
        ico_dir_sizes(*dir).no_duplicates(),
        forall|i: int|
            0 <= i < ico_dir_sizes(*dir).len() ==> 1 <= #[trigger] ico_dir_sizes(*dir)[i] <= 256,
    ensures
        r is Ok,
        final(w)@ == old(w)@ + ico_dir_bytes(*dir),
        final(w)@.len() >= old(w)@.len() + 6,
        final(w)@[old(w)@.len() as int] == 0u8,
        final(w)@[old(w)@.len() as int + 1] == 0u8,
        final(w)@[old(w)@.len() as int + 2] == 1u8,
        final(w)@[old(w)@.len() as int + 3] == 0u8,
        final(w)@[old(w)@.len() as int + 4] == (ico_dir_sizes(*dir).len() % 256) as u8,
        final(w)@[old(w)@.len() as int + 5] == (ico_dir_sizes(*dir).len() / 256) as u8,
{
    match dir.write(&mut *w) {
        Ok(()) => Ok(()),
        Err(_) => Err(Error::Io),
    }
}

/// Relies on ico::IconDir's derived Clone: the clone holds equal entries and
/// the same resource type, so it serializes to the same bytes.
#[verifier::external_body]
fn ico_dir_clone(dir: &ico::IconDir) -> (r: ico::IconDir)
    ensures
        ico_dir_sizes(r) == ico_dir_sizes(*dir),
        ico_dir_is_icons(r) == ico_dir_is_icons(*dir),
        ico_dir_bytes(r) == ico_dir_bytes(*dir),
{
    dir.clone()
}

/// The key type for `Ico`. Note that `Key(0)` represents a 256×256 entry.
#[derive(Copy, Clone, Debug, PartialEq, Eq, Hash)]
pub struct Key(pub u8);

/// The `.ico` format supports any pixel size from 1 through 256.
pub open spec fn ico_size_ok(size: u32) -> bool {
    1 <= size <= 256
}

/// The key that a pixel size in the format's domain converts to: 256 maps to
/// the reserved sentinel `Key(0)`, every other supported size to itself.
pub open spec fn spec_key_of(size: u32) -> Key {
    if size == 256 {
        Key(0)
    } else {
        Key(size as u8)
    }
}

impl Size for Key {
    open spec fn spec_size(&self) -> u32 {
        if self.0 == 0 {
            256
        } else {
            self.0 as u32
        }
    }

    fn size(&self) -> (r: u32) {
        self.as_size()
    }
}

impl Key {
    /// Returns the pixel size this key stands for. Total: every key denotes a
    /// size, with the sentinel `Key(0)` denoting 256.
    pub fn as_size(&self) -> (r: u32)
        ensures
            r == self.spec_size(),
    {
        if self.0 == 0 {
            256
        } else {
            self.0 as u32
        }
    }

    /// Converts a pixel size to a key. Sizes in the format's domain convert
    /// to the key that denotes them; every other size is rejected with
    /// `Error::InvalidSize`, and no key results.
    pub fn try_from(size: u32) -> (r: Result<Key, Error>)
        ensures
            ico_size_ok(size) ==> r == Ok::<Key, Error>(spec_key_of(size)),
            !ico_size_ok(size) ==> r == Err::<Key, Error>(Error::InvalidSize(size)),
    {
        if size == 256 {
            Ok(Key(0))
        } else if size == 0 {
            Err(Error::InvalidSize(size))
        } else if size < 256 {
            Ok(Key(size as u8))
        } else {
            Err(Error::InvalidSize(size))
        }
    }
}

/// Round-trip law: every size in the `.ico` domain converts to a key that
/// converts back to the same size; in particular 256 round-trips through the
/// sentinel key.
pub proof fn lemma_ico_key_roundtrip(size: u32)
    requires
        ico_size_ok(size),
    ensures
        spec_key_of(size).spec_size() == size,
{
}

/// Rejection law: a size outside the `.ico` domain never equals the size any
/// key denotes, so no key can stand for it.
pub proof fn lemma_ico_key_rejects(size: u32, key: Key)
    requires
        !ico_size_ok(size),
    ensures
        key.spec_size() != size,
{
}

/// The sizes that a sequence of `.ico` keys denotes.
pub open spec fn key_sizes(keys: Seq<Key>) -> Seq<u32> {
    keys.map_values(|k: Key| k.spec_size())
}

/// An encoder for the `.ico` file format.
pub struct Ico {
    icon_dir: ico::IconDir,
    keys: Vec<u32>,
}

impl Clone for Ico {
    fn clone(&self) -> (r: Self)
        ensures
            r.sizes() == self.sizes(),
            r.encoded() == self.encoded(),
            self.wf() ==> r.wf(),
    {
        let mut keys: Vec<u32> = Vec::with_capacity(self.keys.len());
        let mut i: usize = 0;
        while i < self.keys.len()
            invariant
                i <= self.keys@.len(),
                keys@ == self.keys@.take(i as int),
            decreases self.keys@.len() - i,
        {
            keys.push(self.keys[i]);
            proof {
                self.keys@.lemma_take_succ_push(i as int);
            }
            i += 1;
        }
        proof {
            assert(self.keys@.take(self.keys@.len() as int) =~= self.keys@);
        }
        Ico { icon_dir: ico_dir_clone(&self.icon_dir), keys }
    }
}

impl Ico {
    /// The pixel sizes of the stored entries, in insertion order.
    pub closed spec fn sizes(&self) -> Seq<u32> {
        self.keys@
    }

    /// The `.ico` serialization of the container's stored entries: what one
    /// call of `write` appends.
    pub closed spec fn encoded(&self) -> Seq<u8> {
        ico_dir_bytes(self.icon_dir)
    }

    /// The container is well formed: the underlying icon directory holds icon
    /// resources whose sizes are exactly the tracked sizes, no size repeats,
    /// and every size is in the format's domain.
    pub closed spec fn wf(&self) -> bool {
        &&& ico_dir_is_icons(self.icon_dir)
        &&& ico_dir_sizes(self.icon_dir) == self.keys@
        &&& self.keys@.no_duplicates()
        &&& forall|i: int| 0 <= i < self.keys@.len() ==> ico_size_ok(#[trigger] self.keys@[i])
    }

    /// Creates a new, empty icon.
    pub fn new() -> (r: Ico)
        ensures
            r.wf(),
            r.sizes() == Seq::<u32>::empty(),
    {
        Ico::with_capacity(0)
    }

    /// Creates a new, empty icon, sized for at least `capacity` entries.
    pub fn with_capacity(capacity: usize) -> (r: Ico)
        ensures
            r.wf(),
            r.sizes() == Seq::<u32>::empty(),
    {
        Ico { icon_dir: ico_dir_new(), keys: Vec::with_capacity(capacity) }
    }

    /// Returns the number of entries stored so far.
    pub fn len(&self) -> (r: usize)
        ensures
            r == self.sizes().len(),
    {
        self.keys.len()
    }

    /// Returns whether an entry of the given pixel size is already stored.
    pub fn contains(&self, size: u32) -> (r: bool)
        ensures
            r == self.sizes().contains(size),
    {
        contains_size(&self.keys, size)
    }

    /// Adds an already-rasterized entry. Fails with `AlreadyIncluded` when an
    /// entry of the key's size is present and with `MismatchedDimensions`
    /// when the raster is not a square of exactly the key's size; a fresh
    /// size with an exact raster always succeeds. On failure the container is
    /// unchanged; on success the key's size is appended.
    pub fn add_raster(&mut self, raster: Raster, key: Key) -> (r: Result<(), Error>)
        requires
            old(self).wf(),
            raster.wf(),
        ensures
            final(self).wf(),
            old(self).sizes().contains(key.spec_size()) ==> r == Err::<(), Error>(
                Error::AlreadyIncluded(key.spec_size()),
            ),
            !old(self).sizes().contains(key.spec_size()) && (raster.spec_width()
                != key.spec_size() || raster.spec_height() != key.spec_size()) ==> r == Err::<
                (),
                Error,
            >(Error::MismatchedDimensions(
                key.spec_size(),
                raster.spec_width(),
                raster.spec_height(),
            )),
            !old(self).sizes().contains(key.spec_size()) && raster.spec_width() == key.spec_size()
                && raster.spec_height() == key.spec_size() ==> r is Ok,
            r is Ok ==> final(self).sizes() == old(self).sizes().push(key.spec_size()),
            r is Err ==> final(self).sizes() == old(self).sizes(),
    {
        let size = key.as_size();
        if contains_size(&self.keys, size) {
            return Err(Error::AlreadyIncluded(size));
        }
        let w = raster.width();
        let h = raster.height();
        if w != size || h != size {
            return Err(Error::MismatchedDimensions(size, w, h));
        }
        let data = raster.into_data();
        match ico_dir_push(&mut self.icon_dir, size, data) {
            Ok(()) => {
                self.keys.push(size);
                proof {
                    assert(final(self).keys@ == old(self).keys@.push(size));
                    assert forall|i: int, j: int|
                        0 <= i < final(self).keys@.len() && 0 <= j < final(self).keys@.len() && i
                            != j implies final(self).keys@[i] != final(self).keys@[j] by {
                        if i < old(self).keys@.len() && j < old(self).keys@.len() {
                        } else if j == old(self).keys@.len() {
                            assert(old(self).keys@[i] == old(self).keys@.push(size)[i]);
                        } else {
                            assert(old(self).keys@[j] == old(self).keys@.push(size)[j]);
                        }
                    }
                }
                Ok(())
            },
            Err(e) => Err(e),
        }
    }

    /// Adds an individual entry: resolves the key to its pixel size, checks
    /// it is not already used, rasterizes the source through the filter, and
    /// stores the encoded result. A duplicate size fails with
    /// `AlreadyIncluded` before the filter is invoked; a filter failure
    /// propagates unchanged; on any failure the container is unchanged.
    pub fn add_entry<F: Filter>(
        &mut self,
        filter: &mut F,
        source: &SourceImage,
        key: Key,
    ) -> (r: Result<(), Error>)
        requires
            old(self).wf(),
        ensures
            final(self).wf(),
            old(self).sizes().contains(key.spec_size()) ==> r == Err::<(), Error>(
                Error::AlreadyIncluded(key.spec_size()),
            ),
            r is Ok ==> final(self).sizes() == old(self).sizes().push(key.spec_size()),
            r is Err ==> final(self).sizes() == old(self).sizes(),
    {
        let size = key.as_size();
        if contains_size(&self.keys, size) {
            return Err(Error::AlreadyIncluded(size));
        }
        match filter.resample(source, size) {
            Ok(raster) => self.add_raster(raster, key),
            Err(e) => Err(e),
        }
    }

    /// Adds a series of entries, in order, stopping at the first failure.
    /// Entries added before the failing key remain in the container — there
    /// is no rollback. When the failing key's size was already present at
    /// that point, the error is `AlreadyIncluded` and the later keys are
    /// never attempted.
    pub fn add_entries<F: Filter>(
        &mut self,
        filter: &mut F,
        source: &SourceImage,
        entries: Vec<Key>,
    ) -> (r: Result<(), Error>)
        requires
            old(self).wf(),
        ensures
            final(self).wf(),
            r is Ok ==> final(self).sizes() == old(self).sizes() + key_sizes(entries@),
            r matches Err(e) ==> exists|i: int|
                0 <= i < entries@.len() && final(self).sizes() == old(self).sizes() + key_sizes(
                    entries@.take(i),
                ) && (final(self).sizes().contains(#[trigger] entries@[i].spec_size()) ==> e
                    == Error::AlreadyIncluded(entries@[i].spec_size())),
    {
        let mut idx: usize = 0;
        while idx < entries.len()
            invariant
                old(self).wf(),
                idx <= entries@.len(),
                self.wf(),
                self.sizes() == old(self).sizes() + key_sizes(entries@.take(idx as int)),
            decreases entries@.len() - idx,
        {
            let key = entries[idx];
            match self.add_entry(filter, source, key) {
                Ok(()) => {
                    proof {
                        entries@.lemma_take_succ_push(idx as int);
                        assert(key_sizes(entries@.take(idx as int + 1)) =~= key_sizes(
                            entries@.take(idx as int),
                        ).push(key.spec_size()));
                        assert(self.sizes() =~= old(self).sizes() + key_sizes(
                            entries@.take(idx as int + 1),
                        ));
                    }
                    idx += 1;
                },
                Err(e) => {
                    proof {
                        assert(0 <= idx < entries@.len() && self.sizes() == old(self).sizes()
                            + key_sizes(entries@.take(idx as int)) && (self.sizes().contains(
                            entries@[idx as int].spec_size(),
                        ) ==> e == Error::AlreadyIncluded(entries@[idx as int].spec_size())));
                    }
                    return Err(e);
                },
            }
        }
        proof {
            assert(entries@.take(entries@.len() as int) =~= entries@);
        }
        Ok(())
    }

    /// Uniqueness law: a well-formed container never holds two entries of the
    /// same pixel size, and every stored size is in the format's domain.
    pub proof fn lemma_sizes_unique(&self)
        requires
            self.wf(),
        ensures
            self.sizes().no_duplicates(),
            forall|i: int| 0 <= i < self.sizes().len() ==> ico_size_ok(#[trigger] self.sizes()[i]),
    {
    }

    /// Serializes all stored entries, in insertion order, into the `.ico`
    /// binary container structure and appends exactly those bytes to `w`. The
    /// container is left untouched and may be written again, with the same
    /// result. The appended bytes begin with the six-byte ICONDIR header: the
    /// bytes 0, 0, 1, 0, then the entry count as a little-endian word.
    pub fn write(&mut self, w: &mut Vec<u8>) -> (r: Result<(), Error>)
        requires
            old(self).wf(),
        ensures
            *final(self) == *old(self),
            r is Ok,
            final(w)@ == old(w)@ + old(self).encoded(),
            old(self).encoded().len() >= 6,
            old(self).encoded()[0] == 0u8,
            old(self).encoded()[1] == 0u8,
            old(self).encoded()[2] == 1u8,
            old(self).encoded()[3] == 0u8,
            old(self).encoded()[4] == (old(self).sizes().len() % 256) as u8,
            old(self).encoded()[5] == (old(self).sizes().len() / 256) as u8,
    {
        let ghost pre = w@;
        let r = ico_dir_write(&self.icon_dir, w);
        proof {
            assert(w@ == pre + self.encoded());
            assert forall|k: int| 0 <= k < 6 implies self.encoded()[k] == w@[pre.len() + k] by {
                assert(w@[pre.len() + k] == (pre + self.encoded())[pre.len() + k]);
            }
        }
        r
    }
}

} // verus!
