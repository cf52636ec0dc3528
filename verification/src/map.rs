//! The mapped views: a read-only `FileMap` and a read-write `FileMapMut`.
//!
//! A view owns one contiguous region of mapped bytes that starts at the
//! page-aligned offset, remembers the padding the aligner introduced and the
//! caller's original logical length, and translates every logical index `i`
//! to physical index `padding + i` of the region. The region here is an
//! in-memory image acquired from the file's bytes; a shared writable view
//! carries its logical window back into the file when it is closed.

use vstd::prelude::*;
use vstd::slice::slice_subrange;
use vstd::slice::slice_to_vec;

use crate::align::round_offset;
use crate::err;
use crate::FileMapError;
use crate::FileMapResult;

verus! {

/// The error code the in-memory backend reports when the aligned window runs
/// past the end of the file: the one failure an in-memory acquisition has.
pub const PAST_END_CODE: i32 = 6;

/// The bytes a view opened over `file` at `offset` with `length` exposes.
pub open spec fn window(file: Seq<u8>, offset: int, length: int) -> Seq<u8> {
    file.subrange(offset, offset + length)
}

/// `file` with the bytes starting at `offset` replaced by `bytes`, and every
/// other byte unchanged.
pub open spec fn write_back(file: Seq<u8>, offset: int, bytes: Seq<u8>) -> Seq<u8> {
    file.subrange(0, offset) + bytes + file.subrange(offset + bytes.len(), file.len() as int)
}

/// A read-only view of a file's byte range.
pub struct FileMap {
    region: Vec<u8>,
    length: usize,
    padding: usize,
}

impl View for FileMap {
    type V = Seq<u8>;

    /// The logical bytes the view exposes: the region with the alignment
    /// padding stripped off.
    closed spec fn view(&self) -> Seq<u8> {
        self.region@.subrange(self.padding as int, self.padding + self.length)
    }
}

impl FileMap {
    /// The region covers exactly the padding plus the logical window.
    pub closed spec fn wf(self) -> bool {
        self.region@.len() == self.padding + self.length
    }

    /// Opens a read-only view of `length` bytes of `file` starting at
    /// `offset`: fails with `InvalidLength` exactly when `length == 0`, and
    /// with the wrapped backend code exactly when the window runs past the
    /// end of the file; otherwise the view shows
    /// `file[offset .. offset + length]`.
    pub fn new(file: &Vec<u8>, offset: usize, length: usize, page_size: usize) -> (r:
        FileMapResult<FileMap>)
        requires
            page_size > 0,
            offset + length <= usize::MAX,
        ensures
            length == 0 <==> r == Err::<FileMap, FileMapError>(FileMapError::InvalidLength),
            (length > 0 && offset + length > file@.len()) <==> r == Err::<FileMap, FileMapError>(
                FileMapError::OsError(PAST_END_CODE),
            ),
            (r matches Ok(m)) <==> (length > 0 && offset + length <= file@.len()),
            r matches Ok(m) ==> {
                &&& m.wf()
                &&& m@ == window(file@, offset as int, length as int)
                &&& m@.len() == length
            },
    {
        let (new_offset, padding, new_length) = match round_offset(offset, length, page_size) {
            Ok(t) => t,
            Err(e) => {
                return Err(e);
            },
        };
        if new_offset > file.len() || new_length > file.len() - new_offset {
            return err(PAST_END_CODE);
        }
        let region = slice_to_vec(slice_subrange(file.as_slice(), new_offset,
            new_offset + new_length));
        let result = FileMap { region, length, padding };
        proof {
            assert(result@ =~= window(file@, offset as int, length as int));
        }
        Ok(result)
    }

    /// The original logical length requested, never the padded length.
    pub fn len(&self) -> (r: usize)
        requires
            self.wf(),
        ensures
            r == self@.len(),
    {
        self.length
    }

    /// The whole logical window.
    pub fn as_slice(&self) -> (r: &[u8])
        requires
            self.wf(),
        ensures
            r@ == self@,
    {
        let end = self.region.len();
        slice_subrange(self.region.as_slice(), self.padding, end)
    }

    /// The logical byte range `[start, end)`, translated to physical range
    /// `[padding + start, padding + end)` of the region.
    pub fn slice(&self, start: usize, end: usize) -> (r: &[u8])
        requires
            self.wf(),
            start <= end <= self@.len(),
        ensures
            r@ == self@.subrange(start as int, end as int),
    {
        let n = self.region.len();
        proof {
            assert(self.padding + end <= n);
        }
        let r = slice_subrange(self.region.as_slice(), self.padding + start, self.padding + end);
        proof {
            assert(r@ =~= self@.subrange(start as int, end as int));
        }
        r
    }

    /// The logical bytes from `start` to the end of the view.
    pub fn slice_from(&self, start: usize) -> (r: &[u8])
        requires
            self.wf(),
            start <= self@.len(),
        ensures
            r@ == self@.skip(start as int),
    {
        let end = self.len();
        let r = self.slice(start, end);
        proof {
            assert(r@ =~= self@.skip(start as int));
        }
        r
    }

    /// The logical bytes from the start of the view up to `end`.
    pub fn slice_to(&self, end: usize) -> (r: &[u8])
        requires
            self.wf(),
            end <= self@.len(),
        ensures
            r@ == self@.take(end as int),
    {
        let r = self.slice(0, end);
        proof {
            assert(r@ =~= self@.take(end as int));
        }
        r
    }
}

/// Relies on std's mutable range indexing of slices: `&mut s[i..j]` is the
/// subslice covering exactly the indices `[i, j)` of `s`, writes through it
/// land at those indices and nowhere else, and a slice's length never
/// changes.
#[verifier::external_body]
fn slice_subrange_mut<'a>(s: &'a mut [u8], i: usize, j: usize) -> (out: &'a mut [u8])
    requires
        i <= j <= old(s)@.len(),
    ensures
        out@ == old(s)@.subrange(i as int, j as int),
        final(out)@.len() == j - i,
        final(s)@ == old(s)@.subrange(0, i as int) + final(out)@ + old(s)@.subrange(
            j as int,
            old(s)@.len() as int,
        ),
{
    &mut s[i..j]
}

/// A read-write view of a file's byte range.
///
/// Beyond the read-only view it remembers the logical offset it was opened
/// at and whether it is shared: closing a shared view carries its logical
/// window back into the file, closing a private one discards every write.
pub struct FileMapMut {
    region: Vec<u8>,
    length: usize,
    padding: usize,
    offset: usize,
    shared: bool,
}

impl View for FileMapMut {
    type V = Seq<u8>;

    /// The logical bytes the view exposes: the region with the alignment
    /// padding stripped off.
    closed spec fn view(&self) -> Seq<u8> {
        self.region@.subrange(self.padding as int, self.padding + self.length)
    }
}

impl FileMapMut {
    /// The region covers exactly the padding plus the logical window.
    pub closed spec fn wf(self) -> bool {
        self.region@.len() == self.padding + self.length
    }

    /// The logical offset into the file the view was opened at.
    pub closed spec fn file_offset(self) -> int {
        self.offset as int
    }

    /// Whether writes are carried back into the file when the view closes.
    pub closed spec fn is_shared(self) -> bool {
        self.shared
    }

    /// Opens a read-write view of `length` bytes of `file` starting at
    /// `offset`. Success and failure are exactly as for the read-only view;
    /// writability of the view is independent of any host-side mutability of
    /// the file, so the file is only borrowed for the construction.
    pub fn new(file: &Vec<u8>, offset: usize, length: usize, shared: bool, page_size: usize) -> (r:
        FileMapResult<FileMapMut>)
        requires
            page_size > 0,
            offset + length <= usize::MAX,
        ensures
            length == 0 <==> r == Err::<FileMapMut, FileMapError>(FileMapError::InvalidLength),
            (length > 0 && offset + length > file@.len()) <==> r == Err::<
                FileMapMut,
                FileMapError,
            >(FileMapError::OsError(PAST_END_CODE)),
            (r matches Ok(m)) <==> (length > 0 && offset + length <= file@.len()),
            r matches Ok(m) ==> {
                &&& m.wf()
                &&& m@ == window(file@, offset as int, length as int)
                &&& m@.len() == length
                &&& m.file_offset() == offset
                &&& m.is_shared() == shared
            },
    {
        let (new_offset, padding, new_length) = match round_offset(offset, length, page_size) {
            Ok(t) => t,
            Err(e) => {
                return Err(e);
            },
        };
        if new_offset > file.len() || new_length > file.len() - new_offset {
            return err(PAST_END_CODE);
        }
        let region = slice_to_vec(slice_subrange(file.as_slice(), new_offset,
            new_offset + new_length));
        let result = FileMapMut { region, length, padding, offset, shared };
        proof {
            assert(result@ =~= window(file@, offset as int, length as int));
        }
        Ok(result)
    }

    /// The original logical length requested, never the padded length.
    pub fn len(&self) -> (r: usize)
        requires
            self.wf(),
        ensures
            r == self@.len(),
    {
        self.length
    }

    /// The whole logical window, read-only.
    pub fn as_slice(&self) -> (r: &[u8])
        requires
            self.wf(),
        ensures
            r@ == self@,
    {
        let end = self.region.len();
        slice_subrange(self.region.as_slice(), self.padding, end)
    }

    /// The logical byte range `[start, end)`, read-only.
    pub fn slice(&self, start: usize, end: usize) -> (r: &[u8])
        requires
            self.wf(),
            start <= end <= self@.len(),
        ensures
            r@ == self@.subrange(start as int, end as int),
    {
        let n = self.region.len();
        proof {
            assert(self.padding + end <= n);
        }
        let r = slice_subrange(self.region.as_slice(), self.padding + start, self.padding + end);
        proof {
            assert(r@ =~= self@.subrange(start as int, end as int));
        }
        r
    }

    /// The logical bytes from `start` to the end of the view, read-only.
    pub fn slice_from(&self, start: usize) -> (r: &[u8])
        requires
            self.wf(),
            start <= self@.len(),
        ensures
            r@ == self@.skip(start as int),
    {
        let end = self.len();
        let r = self.slice(start, end);
        proof {
            assert(r@ =~= self@.skip(start as int));
        }
        r
    }

    /// The logical bytes from the start of the view up to `end`, read-only.
    pub fn slice_to(&self, end: usize) -> (r: &[u8])
        requires
            self.wf(),
            end <= self@.len(),
        ensures
            r@ == self@.take(end as int),
    {
        let r = self.slice(0, end);
        proof {
            assert(r@ =~= self@.take(end as int));
        }
        r
    }

    /// Writes byte `b` at logical index `i`: physical index `padding + i` of
    /// the region.
    pub fn write(&mut self, i: usize, b: u8)
        requires
            old(self).wf(),
            i < old(self)@.len(),
        ensures
            final(self).wf(),
            final(self)@ == old(self)@.update(i as int, b),
            final(self).file_offset() == old(self).file_offset(),
            final(self).is_shared() == old(self).is_shared(),
    {
        let n = self.region.len();
        proof {
            assert(self.padding + i < n);
        }
        let j = self.padding + i;
        self.region[j] = b;
        proof {
            assert(self@ =~= old(self)@.update(i as int, b));
        }
    }

    /// The whole logical window, writable: writes through the returned
    /// slice become the view's new contents.
    pub fn as_slice_mut(&mut self) -> (r: &mut [u8])
        requires
            old(self).wf(),
        ensures
            r@ == old(self)@,
            final(r)@.len() == old(self)@.len(),
            final(self)@ =~= final(r)@,
            final(self).wf(),
            final(self).file_offset() == old(self).file_offset(),
            final(self).is_shared() == old(self).is_shared(),
    {
        let pad = self.padding;
        let end = self.region.len();
        let s = self.region.as_mut_slice();
        slice_subrange_mut(s, pad, end)
    }

    /// The logical byte range `[start, end)`, writable: the view keeps every
    /// byte outside `[start, end)` and takes the slice's final bytes inside
    /// it.
    pub fn slice_mut(&mut self, start: usize, end: usize) -> (r: &mut [u8])
        requires
            old(self).wf(),
            start <= end <= old(self)@.len(),
        ensures
            r@ =~= old(self)@.subrange(start as int, end as int),
            final(r)@.len() == end - start,
            final(self)@ =~= old(self)@.subrange(0, start as int) + final(r)@ + old(
                self,
            )@.subrange(end as int, old(self)@.len() as int),
            final(self).wf(),
            final(self).file_offset() == old(self).file_offset(),
            final(self).is_shared() == old(self).is_shared(),
    {
        let pad = self.padding;
        let n = self.region.len();
        proof {
            assert(pad + end <= n);
        }
        let s = self.region.as_mut_slice();
        slice_subrange_mut(s, pad + start, pad + end)
    }

    /// Destroys the view and releases its region. A shared view carries its
    /// logical window back into the file; a private, copy-on-write view
    /// leaves the file untouched.
    pub fn close(self, file: &mut Vec<u8>)
        requires
            self.wf(),
            self.file_offset() + self@.len() <= old(file)@.len(),
        ensures
            self.is_shared() ==> final(file)@ == write_back(
                old(file)@,
                self.file_offset(),
                self@,
            ),
            !self.is_shared() ==> final(file)@ == old(file)@,
    {
        if !self.shared {
            return;
        }
        let mut k: usize = 0;
        while k < self.length
            invariant
                self.wf(),
                k <= self.length,
                self.offset + self.length <= file@.len(),
                file@.len() == old(file)@.len(),
                forall|i: int| 0 <= i < self.offset ==> file@[i] == old(file)@[i],
                forall|i: int| 0 <= i < k ==> file@[self.offset + i] == self@[i],
                forall|i: int|
                    self.offset + self.length <= i < file@.len() ==> file@[i] == old(file)@[i],
            decreases self.length - k,
        {
            let n = self.region.len();
            let flen = file.len();
            proof {
                assert(self.padding + k < n);
                assert(self.offset + k < flen);
            }
            let b = self.region[self.padding + k];
            let idx = self.offset + k;
            file[idx] = b;
            k = k + 1;
        }
        proof {
            assert(file@ =~= write_back(old(file)@, self.file_offset(), self@));
        }
    }
}

/// Law: a read-only view over a whole file shows exactly the file's bytes,
/// and its length is the file's length.
pub proof fn lemma_whole_file_window(file: Seq<u8>)
    ensures
        window(file, 0, file.len() as int) == file,
{
    assert(window(file, 0, file.len() as int) =~= file);
}

/// Law: a view at a (possibly unaligned) offset shows the file's bytes
/// shifted by that offset: index `k` of the window is the file's byte
/// `offset + k`, for every `k` below the window's length.
pub proof fn lemma_window_index(file: Seq<u8>, offset: int, length: int, k: int)
    requires
        0 <= offset,
        0 <= length,
        offset + length <= file.len(),
        0 <= k < length,
    ensures
        window(file, offset, length)[k] == file[offset + k],
{
}

/// Law: writing byte `b` at logical index `i` of a shared view opened at
/// `offset` and carrying the window back into the file updates the file at
/// `offset + i` and changes no other byte.
pub proof fn lemma_shared_write_round_trip(file: Seq<u8>, offset: int, length: int, i: int, b: u8)
    requires
        0 <= offset,
        0 < length,
        offset + length <= file.len(),
        0 <= i < length,
    ensures
        write_back(file, offset, window(file, offset, length).update(i, b)) == file.update(
            offset + i,
            b,
        ),
{
    assert(write_back(file, offset, window(file, offset, length).update(i, b)) =~= file.update(
        offset + i,
        b,
    ));
}

/// Law: after a shared view opened at `offset` writes `b` at logical index
/// `i` and closes, a fresh view over the whole updated file observes `b` at
/// index `offset + i` and the file's old byte at every other index.
pub proof fn lemma_reopen_observes_write(file: Seq<u8>, offset: int, length: int, i: int, b: u8)
    requires
        0 <= offset,
        0 < length,
        offset + length <= file.len(),
        0 <= i < length,
    ensures
        ({
            let reopened = window(
                write_back(file, offset, window(file, offset, length).update(i, b)),
                0,
                file.len() as int,
            );
            &&& reopened.len() == file.len()
            &&& reopened[offset + i] == b
            &&& forall|j: int| 0 <= j < file.len() && j != offset + i ==> reopened[j] == file[j]
        }),
{
    lemma_shared_write_round_trip(file, offset, length, i, b);
    lemma_whole_file_window(file.update(offset + i, b));
}

} // verus!
