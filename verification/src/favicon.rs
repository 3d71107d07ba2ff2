//! Structs for building favicon sets: named PNG entries of arbitrary sizes.

use crate::encode;
use crate::Error;
use crate::Filter;
use crate::Raster;
use crate::Size;
use crate::SourceImage;
use vstd::prelude::*;

verus! {

/// The key type for `Favicon`: a target pixel size paired with the output
/// name that distinguishes the entry. Uniqueness in a favicon set is
/// per-name, not per-size.
#[derive(Debug)]
pub struct Key {
    size: u32,
    name: String,
}

impl Clone for Key {
    fn clone(&self) -> (r: Self)
        ensures
            r.spec_size() == self.spec_size(),
            r.spec_name() == self.spec_name(),
    {
        Key { size: self.size, name: self.name.clone() }
    }
}

impl Size for Key {
    closed spec fn spec_size(&self) -> u32 {
        self.size
    }

    fn size(&self) -> (r: u32) {
        self.size
    }
}

impl Key {
    /// The output name this key carries.
    pub closed spec fn spec_name(&self) -> Seq<char> {
        self.name@
    }

    /// Builds a key from a pixel size and an output name. Any positive size
    /// is accepted; zero is rejected with `Error::InvalidSize`, and no key
    /// results.
    pub fn new(size: u32, name: String) -> (r: Result<Key, Error>)
        ensures
            size >= 1 ==> (r matches Ok(k) && k.spec_size() == size && k.spec_name() == name@),
            size == 0 ==> r == Err::<Key, Error>(Error::InvalidSize(0)),
    {
        if size == 0 {
            Err(Error::InvalidSize(0))
        } else {
            Ok(Key { size, name })
        }
    }

    /// Returns the pixel size this key stands for.
    pub fn as_size(&self) -> (r: u32)
        ensures
            r == self.spec_size(),
    {
        self.size
    }

    /// Returns the output name this key carries.
    pub fn name(&self) -> (r: &String)
        ensures
            r@ == self.spec_name(),
    {
        &self.name
    }
}

/// The output names that a sequence of favicon keys carries.
pub open spec fn key_names(keys: Seq<Key>) -> Seq<Seq<char>> {
    keys.map_values(|k: Key| k.spec_name())
}

/// The sizes that a sequence of favicon keys denotes.
pub open spec fn key_sizes(keys: Seq<Key>) -> Seq<u32> {
    keys.map_values(|k: Key| k.spec_size())
}

/// Returns whether `v` holds a string equal to `x`.
fn contains_name(v: &Vec<String>, x: &String) -> (r: bool)
    ensures
        r == v@.map_values(|s: String| s@).contains(x@),
{
    let ghost views = v@.map_values(|s: String| s@);
    let mut i: usize = 0;
    while i < v.len()
        invariant
            i <= v@.len(),
            views == v@.map_values(|s: String| s@),
            forall|j: int| 0 <= j < i ==> views[j] != x@,
        decreases v@.len() - i,
    {
        if v[i].eq(x) {
            proof {
                assert(views[i as int] == v@[i as int]@);
            }
            return true;
        }
        proof {
            assert(views[i as int] == v@[i as int]@);
        }
        i += 1;
    }
    false
}

/// A builder for favicon sets: an ordered collection of named PNG entries.
/// Writing the entries out as files is the caller's concern; the container
/// exposes them by index.
pub struct Favicon {
    entry_names: Vec<String>,
    entry_sizes: Vec<u32>,
    entry_data: Vec<Vec<u8>>,
}

impl Favicon {
    /// The output names of the stored entries, in insertion order.
    pub closed spec fn names(&self) -> Seq<Seq<char>> {
        self.entry_names@.map_values(|s: String| s@)
    }

    /// The pixel sizes of the stored entries, in insertion order.
    pub closed spec fn sizes(&self) -> Seq<u32> {
        self.entry_sizes@
    }

    /// The encoded PNG streams of the stored entries, in insertion order.
    pub closed spec fn datas(&self) -> Seq<Seq<u8>> {
        self.entry_data@.map_values(|v: Vec<u8>| v@)
    }

    /// The container is well formed: names, sizes and encoded entries run in
    /// parallel, no output name repeats, and every size is positive. Sizes
    /// may repeat — uniqueness is per-name for this format.
    pub closed spec fn wf(&self) -> bool {
        &&& self.entry_names@.len() == self.entry_sizes@.len()
        &&& self.entry_names@.len() == self.entry_data@.len()
        &&& self.names().no_duplicates()
        &&& forall|i: int| 0 <= i < self.entry_sizes@.len() ==> #[trigger] self.entry_sizes@[i] >= 1
    }

    /// Creates a new, empty favicon set.
    pub fn new() -> (r: Favicon)
        ensures
            r.wf(),
            r.names() == Seq::<Seq<char>>::empty(),
            r.sizes() == Seq::<u32>::empty(),
            r.datas() == Seq::<Seq<u8>>::empty(),
    {
        Favicon::with_capacity(0)
    }

    /// Creates a new, empty favicon set, sized for at least `capacity`
    /// entries.
    pub fn with_capacity(capacity: usize) -> (r: Favicon)
        ensures
            r.wf(),
            r.names() == Seq::<Seq<char>>::empty(),
            r.sizes() == Seq::<u32>::empty(),
            r.datas() == Seq::<Seq<u8>>::empty(),
    {
        let r = Favicon {
            entry_names: Vec::with_capacity(capacity),
            entry_sizes: Vec::with_capacity(capacity),
            entry_data: Vec::with_capacity(capacity),
        };
        proof {
            assert(r.names() =~= Seq::<Seq<char>>::empty());
            assert(r.datas() =~= Seq::<Seq<u8>>::empty());
        }
        r
    }

    /// Returns the number of entries stored so far.
    pub fn len(&self) -> (r: usize)
        requires
            self.wf(),
        ensures
            r == self.names().len(),
            r == self.sizes().len(),
    {
        self.entry_names.len()
    }

    /// Returns whether an entry with this output name is already stored.
    pub fn contains_entry_name(&self, name: &String) -> (r: bool)
        ensures
            r == self.names().contains(name@),
    {
        contains_name(&self.entry_names, name)
    }

    /// Returns the output name of the entry at `index`.
    pub fn name_at(&self, index: usize) -> (r: &String)
        requires
            self.wf(),
            index < self.names().len(),
        ensures
            r@ == self.names()[index as int],
    {
        &self.entry_names[index]
    }

    /// Returns the pixel size of the entry at `index`.
    pub fn size_at(&self, index: usize) -> (r: u32)
        requires
            self.wf(),
            index < self.sizes().len(),
        ensures
            r == self.sizes()[index as int],
    {
        self.entry_sizes[index]
    }

    /// Returns the encoded PNG bytes of the entry at `index`.
    pub fn data_at(&self, index: usize) -> (r: &Vec<u8>)
        requires
            self.wf(),
            index < self.names().len(),
        ensures
            r@ == self.datas()[index as int],
    {
        &self.entry_data[index]
    }

    /// Uniqueness law: a well-formed favicon set never holds two entries with
    /// the same output name, names and sizes run in parallel, and every
    /// stored size is positive. Sizes may repeat.
    pub proof fn lemma_names_unique(&self)
        requires
            self.wf(),
        ensures
            self.names().no_duplicates(),
            self.names().len() == self.sizes().len(),
            forall|i: int| 0 <= i < self.sizes().len() ==> #[trigger] self.sizes()[i] >= 1,
    {
    }

    /// Adds an already-rasterized entry. A zero key size fails with
    /// `InvalidSize`; a key whose output name is already used fails with
    /// `DuplicateName`; a raster that is not a square of exactly the key's
    /// size fails with `MismatchedDimensions`; a fresh name with an exact
    /// raster always succeeds, appending the key's name and size and the
    /// raster's PNG encoding. On failure the container is unchanged. An
    /// already-used size alone is no failure.
    pub fn add_raster(&mut self, raster: Raster, key: Key) -> (r: Result<(), Error>)
        requires
            old(self).wf(),
            raster.wf(),
        ensures
            final(self).wf(),
            key.spec_size() == 0 ==> r == Err::<(), Error>(Error::InvalidSize(0)),
            key.spec_size() >= 1 && old(self).names().contains(key.spec_name()) ==> (r matches Err(
                e,
            ) && e matches Error::DuplicateName(n) && n@ == key.spec_name()),
            key.spec_size() >= 1 && !old(self).names().contains(key.spec_name()) && (
            raster.spec_width() != key.spec_size() || raster.spec_height() != key.spec_size())
                ==> r == Err::<(), Error>(Error::MismatchedDimensions(
                key.spec_size(),
                raster.spec_width(),
                raster.spec_height(),
            )),
            key.spec_size() >= 1 && !old(self).names().contains(key.spec_name())
                && raster.spec_width() == key.spec_size() && raster.spec_height()
                == key.spec_size() ==> r is Ok,
            r is Ok ==> final(self).names() == old(self).names().push(key.spec_name()),
            r is Ok ==> final(self).sizes() == old(self).sizes().push(key.spec_size()),
            r is Ok ==> final(self).datas() == old(self).datas().push(
                encode::png_bytes(raster.spec_width(), raster.spec_height(), raster.spec_data()),
            ),
            r is Err ==> final(self).names() == old(self).names(),
            r is Err ==> final(self).sizes() == old(self).sizes(),
            r is Err ==> final(self).datas() == old(self).datas(),
    {
        let size = key.as_size();
        if size == 0 {
            return Err(Error::InvalidSize(0));
        }
        if contains_name(&self.entry_names, key.name()) {
            let Key { size: _, name } = key;
            return Err(Error::DuplicateName(name));
        }
        let w = raster.width();
        let h = raster.height();
        if w != size || h != size {
            return Err(Error::MismatchedDimensions(size, w, h));
        }
        match encode::png(&raster) {
            Ok(blob) => {
                let Key { size, name } = key;
                self.entry_names.push(name);
                self.entry_sizes.push(size);
                self.entry_data.push(blob);
                proof {
                    assert(final(self).names() =~= old(self).names().push(key.spec_name()));
                    assert(final(self).datas() =~= old(self).datas().push(
                        encode::png_bytes(
                            raster.spec_width(),
                            raster.spec_height(),
                            raster.spec_data(),
                        ),
                    ));
                    assert forall|i: int, j: int|
                        0 <= i < final(self).names().len() && 0 <= j < final(self).names().len()
                            && i != j implies final(self).names()[i] != final(self).names()[j] by {
                        if i < old(self).names().len() && j < old(self).names().len() {
                            assert(old(self).names()[i] == final(self).names()[i]);
                            assert(old(self).names()[j] == final(self).names()[j]);
                        } else if j == old(self).names().len() {
                            assert(old(self).names()[i] == final(self).names()[i]);
                        } else {
                            assert(old(self).names()[j] == final(self).names()[j]);
                        }
                    }
                }
                Ok(())
            },
            Err(e) => Err(e),
        }
    }

    /// Adds an individual entry: validates the key, checks its output name is
    /// not already used, rasterizes the source through the filter, and stores
    /// the encoded result. A duplicate name fails with `DuplicateName` before
    /// the filter is invoked; a filter failure propagates unchanged; on any
    /// failure the container is unchanged.
    pub fn add_entry<F: Filter>(
        &mut self,
        filter: &mut F,
        source: &SourceImage,
        key: Key,
    ) -> (r: Result<(), Error>)
        requires
            old(self).wf(),
        ensures
            final(self).wf(),
            key.spec_size() == 0 ==> r == Err::<(), Error>(Error::InvalidSize(0)),
            key.spec_size() >= 1 && old(self).names().contains(key.spec_name()) ==> (r matches Err(
                e,
            ) && e matches Error::DuplicateName(n) && n@ == key.spec_name()),
            r is Ok ==> final(self).names() == old(self).names().push(key.spec_name()),
            r is Ok ==> final(self).sizes() == old(self).sizes().push(key.spec_size()),
            r is Err ==> final(self).names() == old(self).names(),
            r is Err ==> final(self).sizes() == old(self).sizes(),
            r is Err ==> final(self).datas() == old(self).datas(),
    {
        let size = key.as_size();
        if size == 0 {
            return Err(Error::InvalidSize(0));
        }
        if contains_name(&self.entry_names, key.name()) {
            let Key { size: _, name } = key;
            return Err(Error::DuplicateName(name));
        }
        match filter.resample(source, size) {
            Ok(raster) => self.add_raster(raster, key),
            Err(e) => Err(e),
        }
    }

    /// Adds a series of entries, in order, stopping at the first failure.
    /// Entries added before the failing key remain in the container — there
    /// is no rollback. An empty series always succeeds. When the failing
    /// key's output name was already present at that point, the error is
    /// `DuplicateName` for it, and the later keys are never attempted.
    pub fn add_entries<F: Filter>(
        &mut self,
        filter: &mut F,
        source: &SourceImage,
        entries: Vec<Key>,
    ) -> (r: Result<(), Error>)
        requires
            old(self).wf(),
        ensures
            final(self).wf(),
            r is Ok ==> final(self).names() == old(self).names() + key_names(entries@),
            r is Ok ==> final(self).sizes() == old(self).sizes() + key_sizes(entries@),
            r matches Err(e) ==> exists|i: int|
                0 <= i < entries@.len() && final(self).names() == old(self).names() + key_names(
                    #[trigger] entries@.take(i),
                ) && final(self).sizes() == old(self).sizes() + key_sizes(entries@.take(i)) && (
                entries@[i].spec_size() == 0 ==> e == Error::InvalidSize(0)) && (
                entries@[i].spec_size() >= 1 && final(self).names().contains(
                    entries@[i].spec_name(),
                ) ==> (e matches Error::DuplicateName(n) && n@ == entries@[i].spec_name())),
    {
        let mut idx: usize = 0;
        while idx < entries.len()
            invariant
                old(self).wf(),
                self.wf(),
                idx <= entries@.len(),
                self.names() == old(self).names() + key_names(entries@.take(idx as int)),
                self.sizes() == old(self).sizes() + key_sizes(entries@.take(idx as int)),
            decreases entries@.len() - idx,
        {
            let key = entries[idx].clone();
            let ghost kname = key.spec_name();
            let ghost ksize = key.spec_size();
            match self.add_entry(filter, source, key) {
                Ok(()) => {
                    proof {
                        entries@.lemma_take_succ_push(idx as int);
                        assert(key_names(entries@.take(idx as int + 1)) =~= key_names(
                            entries@.take(idx as int),
                        ).push(kname));
                        assert(key_sizes(entries@.take(idx as int + 1)) =~= key_sizes(
                            entries@.take(idx as int),
                        ).push(ksize));
                        assert(self.names() =~= old(self).names() + key_names(
                            entries@.take(idx as int + 1),
                        ));
                        assert(self.sizes() =~= old(self).sizes() + key_sizes(
                            entries@.take(idx as int + 1),
                        ));
                    }
                    idx += 1;
                },
                Err(e) => {
                    proof {
                        assert(0 <= idx < entries@.len() && self.names() == old(
                            self,
                        ).names() + key_names(entries@.take(idx as int)) && self.sizes() == old(
                            self,
                        ).sizes() + key_sizes(entries@.take(idx as int)));
                        assert(entries@[idx as int].spec_size() == ksize);
                        assert(entries@[idx as int].spec_name() == kname);
                        assert(ksize == 0 ==> e == Error::InvalidSize(0));
                        assert(ksize >= 1 && self.names().contains(kname) ==> (
                        e matches Error::DuplicateName(n) && n@ == kname));
                    }
                    return Err(e);
                },
            }
        }
        proof {
            assert(entries@.take(entries@.len() as int) =~= entries@);
        }
        Ok(())
    }
}

} // verus!
