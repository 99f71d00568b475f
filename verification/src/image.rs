//! Sparse file writer, modelled on the destination file's contents: the
//! image is sized to the snapshot's total length before any block lands,
//! untouched regions read as zero, and each write fills exactly the window
//! its block index addresses.

use vstd::prelude::*;
use crate::block::{
    lemma_offset_in_range, lemma_window_len_zero_past_count, spec_block_count, spec_window_len,
};
use crate::errors::SizeMismatchError;

verus! {

/// `data` with `payload` laid down starting at `offset`; bytes outside the
/// written range keep their old value, and the length never changes.
pub open spec fn spec_write_at(data: Seq<u8>, offset: nat, payload: Seq<u8>) -> Seq<u8>
    recommends
        offset + payload.len() <= data.len(),
{
    Seq::new(
        data.len(),
        |i: int|
            if offset <= i < offset + payload.len() {
                payload[i - offset]
            } else {
                data[i]
            },
    )
}

/// A sequence of `len` zero bytes: what every region of a freshly sized
/// sparse file reads as.
pub open spec fn spec_zeros(len: nat) -> Seq<u8> {
    Seq::new(len, |i: int| 0u8)
}

/// Laying the same payload down twice at the same offset leaves the
/// contents exactly as a single write does, so a retried `write_block`
/// with an identical payload is harmless.
pub proof fn lemma_write_at_idempotent(data: Seq<u8>, offset: nat, payload: Seq<u8>)
    ensures
        spec_write_at(spec_write_at(data, offset, payload), offset, payload)
            == spec_write_at(data, offset, payload),
{
    assert(spec_write_at(spec_write_at(data, offset, payload), offset, payload)
        =~= spec_write_at(data, offset, payload));
}

/// The destination of a download: an in-memory image of the file, created
/// at the snapshot's full length with every byte zero, then filled one
/// block window at a time.
pub struct DiskImage {
    data: Vec<u8>,
    block_size: usize,
}

impl DiskImage {
    /// The bytes the image currently holds.
    pub closed spec fn contents(&self) -> Seq<u8> {
        self.data@
    }

    /// The block size the image was created with.
    pub closed spec fn block_size(&self) -> usize {
        self.block_size
    }

    /// An image is well formed when its block size is positive.
    pub open spec fn wf(&self) -> bool {
        self.block_size() >= 1
    }

    /// Size the image to `total_size` bytes, all zero.
    pub fn new(total_size: usize, block_size: usize) -> (r: DiskImage)
        requires
            block_size >= 1,
        ensures
            r.wf(),
            r.block_size() == block_size,
            r.contents() == spec_zeros(total_size as nat),
    {
        let mut data: Vec<u8> = Vec::new();
        while data.len() < total_size
            invariant
                data@.len() <= total_size,
                data@ =~= spec_zeros(data@.len()),
            decreases total_size - data@.len(),
        {
            data.push(0u8);
        }
        proof {
            assert(data@ =~= spec_zeros(total_size as nat));
        }
        DiskImage { data, block_size }
    }

    /// The image's length in bytes.
    pub fn len(&self) -> (r: usize)
        ensures
            r == self.contents().len(),
    {
        self.data.len()
    }

    /// The image's contents, for handing to whatever persists them.
    pub fn bytes(&self) -> (r: &Vec<u8>)
        ensures
            r@ == self.contents(),
    {
        &self.data
    }

    /// Whether `payload` exactly fills the window that `index` addresses:
    /// the only writes the image accepts.
    pub open spec fn accepts(&self, index: nat, payload: Seq<u8>) -> bool {
        &&& payload.len() == spec_window_len(self.contents().len(), self.block_size() as nat, index)
        &&& payload.len() > 0
    }

    /// Write one block's payload at offset `index * block_size`.
    ///
    /// The write never reaches beyond the image's declared length: a
    /// payload that does not exactly fill the addressed window, or an
    /// index past the end, is rejected whole, leaving the image untouched.
    pub fn write_block(&mut self, index: usize, payload: &[u8]) -> (r: Result<
        (),
        SizeMismatchError,
    >)
        requires
            old(self).wf(),
        ensures
            final(self).wf(),
            final(self).block_size() == old(self).block_size(),
            final(self).contents().len() == old(self).contents().len(),
            old(self).accepts(index as nat, payload@) ==> (r matches Ok(())
                && final(self).contents() == spec_write_at(
                old(self).contents(),
                index as nat * old(self).block_size() as nat,
                payload@,
            )),
            !old(self).accepts(index as nat, payload@) ==> (r matches Err(e)
                && e == (SizeMismatchError { index })
                && final(self).contents() == old(self).contents()),
    {
        let total = self.data.len();
        let bs = self.block_size;
        let count = crate::block::block_count(total, bs);
        if index >= count {
            proof {
                lemma_window_len_zero_past_count(total as nat, bs as nat, index as nat);
            }
            return Err(SizeMismatchError { index });
        }
        proof {
            lemma_offset_in_range(total as nat, bs as nat, index as nat);
        }
        let offset = index * bs;
        let window = if bs <= total - offset {
            bs
        } else {
            total - offset
        };
        if payload.len() != window {
            return Err(SizeMismatchError { index });
        }
        let ghost pre = self.data@;
        let mut j: usize = 0;
        while j < window
            invariant
                j <= window,
                offset + window <= usize::MAX,
                offset + window <= self.data@.len(),
                self.data@.len() == pre.len(),
                payload@.len() == window,
                forall|k: int|
                    0 <= k < pre.len() && !(offset <= k < offset + j) ==> self.data@[k] == pre[k],
                forall|k: int| offset <= k < offset + j ==> self.data@[k] == payload@[k - offset],
                self.block_size == bs,
            decreases window - j,
        {
            self.data.set(offset + j, payload[j]);
            j += 1;
        }
        proof {
            assert(self.data@ =~= spec_write_at(pre, offset as nat, payload@));
        }
        Ok(())
    }
}

} // verus!
