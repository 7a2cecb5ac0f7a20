//! Per-frame texture table for the fixed-size bindless binding.
//!
//! Draw calls refer to textures by a stable numeric identity (see the design
//! note on identity-based deduplication: handles embed a stable id and are
//! compared on it).  The table deduplicates the identities seen this frame
//! into an ordered list of at most [`RESERVED_TEXTURE_VIEW`] entries; the
//! position of an identity in that list is the index baked into vertex data
//! and used to select a slot of the texture-view array at dispatch time.
//! Entries are valid for exactly one frame and are cleared on `prepare`.
//!
//! The entry list itself is kept in a `smallvec::SmallVec` sized for the
//! full table, so a frame that stays within the binding's capacity never
//! heap-allocates for it.

use vstd::prelude::*;

use crate::ui::UiError;

verus! {

/// Number of texture-view slots of the bindless binding.  The binding is
/// declared once, at pipeline-layout construction, with exactly this many
/// slots, so a frame can reference at most this many distinct textures.
pub const RESERVED_TEXTURE_VIEW: usize = 32;

/// The entry list of the table: a `smallvec::SmallVec` inlining up to the
/// full table, held opaquely because Verus cannot declare the `SmallVec`
/// type itself (its generic parameter is bound by smallvec's `Array` trait).
#[verifier::external_body]
pub struct TableVec {
    vec: smallvec::SmallVec<[u64; 32]>,
}

/// The sequence of entries a table vector holds, in order.
pub uninterp spec fn small_vec_entries(v: &TableVec) -> Seq<u64>;

/// Relies on smallvec::SmallVec::new: constructs an empty vector.
#[verifier::external_body]
fn table_vec_new() -> (r: TableVec)
    ensures
        small_vec_entries(&r) == Seq::<u64>::empty(),
{
    TableVec { vec: smallvec::SmallVec::new() }
}

/// Relies on smallvec::SmallVec::len: the number of elements stored.
#[verifier::external_body]
fn table_vec_len(v: &TableVec) -> (r: usize)
    ensures
        r == small_vec_entries(v).len(),
{
    v.vec.len()
}

/// Relies on smallvec::SmallVec::push: appends one element at the end.
#[verifier::external_body]
fn table_vec_push(v: &mut TableVec, value: u64)
    requires
        small_vec_entries(old(v)).len() < usize::MAX,
    ensures
        small_vec_entries(final(v)) == small_vec_entries(old(v)).push(value),
{
    v.vec.push(value);
}

/// Relies on smallvec's Index impl: reads the element at `index`.
#[verifier::external_body]
fn table_vec_get(v: &TableVec, index: usize) -> (r: u64)
    requires
        index < small_vec_entries(v).len(),
    ensures
        r == small_vec_entries(v)[index as int],
{
    v.vec[index]
}

/// Relies on smallvec::SmallVec::clear: removes all elements.
#[verifier::external_body]
fn table_vec_clear(v: &mut TableVec)
    ensures
        small_vec_entries(final(v)) == Seq::<u64>::empty(),
{
    v.vec.clear();
}

/// An ordered list of entries is a valid table when it fits the binding and
/// holds each texture identity at most once.
pub open spec fn table_wf(entries: Seq<u64>) -> bool {
    &&& entries.len() <= RESERVED_TEXTURE_VIEW
    &&& forall|i: int, j: int|
        0 <= i < j < entries.len() ==> entries[i] != entries[j]
}

/// The exact effect of [`TextureTable::resolve`] on the entry list: the
/// successor list paired with the resolved index, or a capacity failure
/// leaving the list unchanged.
pub open spec fn spec_resolve(entries: Seq<u64>, tex: u64) -> (Seq<u64>, Result<usize, UiError>) {
    if entries.contains(tex) {
        (entries, Ok((choose|i: int| 0 <= i < entries.len() && entries[i] == tex) as usize))
    } else if entries.len() < RESERVED_TEXTURE_VIEW {
        (entries.push(tex), Ok(entries.len() as usize))
    } else {
        (entries, Err(UiError::ResourceExhausted))
    }
}

/// The per-frame texture table.
pub struct TextureTable {
    pub entries: TableVec,
}

impl TextureTable {
    /// The texture identities seen this frame, in resolution order.
    pub open spec fn entries_seq(&self) -> Seq<u64> {
        small_vec_entries(&self.entries)
    }

    pub open spec fn wf(&self) -> bool {
        table_wf(self.entries_seq())
    }

    /// An empty table.
    pub fn new() -> (r: TextureTable)
        ensures
            r.entries_seq() == Seq::<u64>::empty(),
            r.wf(),
    {
        TextureTable { entries: table_vec_new() }
    }

    /// Number of distinct textures seen this frame.
    pub fn len(&self) -> (r: usize)
        ensures
            r == self.entries_seq().len(),
    {
        table_vec_len(&self.entries)
    }

    /// The texture identity stored at `index`.
    pub fn get(&self, index: usize) -> (r: u64)
        requires
            index < self.entries_seq().len(),
        ensures
            r == self.entries_seq()[index as int],
    {
        table_vec_get(&self.entries, index)
    }

    /// Forget all entries (start of a new frame).
    pub fn clear(&mut self)
        ensures
            final(self).entries_seq() == Seq::<u64>::empty(),
            final(self).wf(),
    {
        table_vec_clear(&mut self.entries);
    }

    /// Produce the per-frame index for texture identity `tex`: the position
    /// of the entry equal to `tex`, appended first if it is new.  Fails
    /// exactly when `tex` is new and the table is already full.
    pub fn resolve(&mut self, tex: u64) -> (r: Result<usize, UiError>)
        requires
            old(self).wf(),
        ensures
            final(self).wf(),
            (final(self).entries_seq(), r) == spec_resolve(old(self).entries_seq(), tex),
            match r {
                Ok(i) => {
                    &&& i < final(self).entries_seq().len()
                    &&& final(self).entries_seq()[i as int] == tex
                    &&& if old(self).entries_seq().contains(tex) {
                        final(self).entries_seq() == old(self).entries_seq()
                    } else {
                        &&& final(self).entries_seq() == old(self).entries_seq().push(tex)
                        &&& i == old(self).entries_seq().len()
                    }
                },
                Err(e) => {
                    &&& e == UiError::ResourceExhausted
                    &&& !old(self).entries_seq().contains(tex)
                    &&& old(self).entries_seq().len() == RESERVED_TEXTURE_VIEW
                    &&& final(self).entries_seq() == old(self).entries_seq()
                },
            },
    {
        let n = self.len();
        let mut pos: usize = 0;
        while pos < n
            invariant
                n == self.entries_seq().len(),
                pos <= n,
                forall|k: int| 0 <= k < pos ==> self.entries_seq()[k] != tex,
                self.wf(),
            decreases n - pos,
        {
            if self.get(pos) == tex {
                proof {
                    assert(self.entries_seq()[pos as int] == tex);
                    assert(self.entries_seq().contains(tex));
                    let i = choose|i: int|
                        0 <= i < self.entries_seq().len() && self.entries_seq()[i] == tex;
                    if i < pos {
                        assert(self.entries_seq()[i] != self.entries_seq()[pos as int]);
                    }
                    if pos < i {
                        assert(self.entries_seq()[pos as int] != self.entries_seq()[i]);
                    }
                    assert(i == pos);
                }
                return Ok(pos);
            }
            pos += 1;
        }
        proof {
            assert(!self.entries_seq().contains(tex));
        }
        if n >= RESERVED_TEXTURE_VIEW {
            return Err(UiError::ResourceExhausted);
        }
        table_vec_push(&mut self.entries, tex);
        Ok(n)
    }
}

/// Texture-table idempotence: resolving the same texture identity twice
/// within one frame returns the same index both times and does not grow the
/// table.
pub proof fn lemma_texture_table_idempotent(entries: Seq<u64>, tex: u64)
    requires
        table_wf(entries),
    ensures
        ({
            let (e1, r1) = spec_resolve(entries, tex);
            spec_resolve(e1, tex) == (e1, r1)
        }),
{
    let (e1, r1) = spec_resolve(entries, tex);
    if entries.contains(tex) {
        assert(e1 == entries);
    } else if entries.len() < RESERVED_TEXTURE_VIEW {
        assert(e1 == entries.push(tex));
        assert(e1[entries.len() as int] == tex);
        assert(e1.contains(tex));
        assert(forall|j: int| 0 <= j < entries.len() ==> entries[j] != tex);
        assert(forall|j: int| 0 <= j < entries.len() ==> e1[j] == entries[j]);
        let i = choose|i: int| 0 <= i < e1.len() && e1[i] == tex;
        if i < entries.len() {
            assert(entries[i] == tex);
            assert(entries.contains(tex));
        }
        assert(i == entries.len());
        assert(spec_resolve(e1, tex).1 == Ok::<usize, UiError>(entries.len() as usize));
        assert(r1 == Ok::<usize, UiError>(entries.len() as usize));
    } else {
    }
}

} // verus!
