//! Transfer progress: the counters a download or upload advances as
//! blocks complete, for reporting to the caller. The remote side never
//! reads them.

use vstd::prelude::*;

verus! {

/// Counters of one transfer operation: how many blocks and bytes are
/// done, against how many are expected in all.
#[derive(Debug, Clone, Copy, PartialEq, Eq, Structural)]
pub struct TransferProgress {
    pub blocks_done: u64,
    pub bytes_done: u64,
    pub blocks_total: u64,
    pub bytes_total: u64,
}

impl TransferProgress {
    /// Fresh counters for a transfer expected to move `blocks_total`
    /// blocks of `bytes_total` bytes in all.
    pub fn new(blocks_total: u64, bytes_total: u64) -> (r: TransferProgress)
        ensures
            r == (TransferProgress { blocks_done: 0, bytes_done: 0, blocks_total, bytes_total }),
    {
        TransferProgress { blocks_done: 0, bytes_done: 0, blocks_total, bytes_total }
    }

    /// Record one completed block of `bytes` bytes.
    pub fn record_block(&mut self, bytes: u64)
        requires
            old(self).blocks_done < u64::MAX,
            old(self).bytes_done + bytes <= u64::MAX,
        ensures
            final(self).blocks_done == old(self).blocks_done + 1,
            final(self).bytes_done == old(self).bytes_done + bytes,
            final(self).blocks_total == old(self).blocks_total,
            final(self).bytes_total == old(self).bytes_total,
    {
        self.blocks_done = self.blocks_done + 1;
        self.bytes_done = self.bytes_done + bytes;
    }

    /// Whether every expected block has completed.
    pub fn is_complete(&self) -> (r: bool)
        ensures
            r == (self.blocks_done >= self.blocks_total),
    {
        self.blocks_done >= self.blocks_total
    }
}

} // verus!
