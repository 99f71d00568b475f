//! File block scanner: read a local file's contents in fixed-size windows,
//! skip the windows that are entirely zero, and emit every other window as
//! a block carrying its index and locally computed checksum, in ascending
//! index order.

use vstd::prelude::*;
use crate::block::{
    Block, block_count, lemma_offset_in_range, spec_block_count, spec_window_len,
};
use crate::checksum::{block_checksum, spec_block_checksum};

verus! {

/// The bytes of the block window with this index: one block, cut short at
/// the end of the file.
pub open spec fn spec_window(data: Seq<u8>, bs: nat, index: nat) -> Seq<u8>
    recommends
        bs >= 1,
        index * bs <= data.len(),
{
    data.subrange(
        (index * bs) as int,
        (index * bs + spec_window_len(data.len(), bs, index)) as int,
    )
}

/// Whether a byte sequence is entirely zero.
pub open spec fn spec_is_zero(s: Seq<u8>) -> bool {
    forall|i: int| 0 <= i < s.len() ==> s[i] == 0
}

/// What scanning the first `k` windows of `data` emits: for every window
/// that holds a non-zero byte, the pair of its index and its bytes, in
/// ascending index order.
pub open spec fn spec_scan(data: Seq<u8>, bs: nat, k: nat) -> Seq<(nat, Seq<u8>)>
    decreases k,
{
    if k == 0 {
        Seq::empty()
    } else {
        let prior = spec_scan(data, bs, (k - 1) as nat);
        if spec_is_zero(spec_window(data, bs, (k - 1) as nat)) {
            prior
        } else {
            prior.push((((k - 1) as nat), spec_window(data, bs, (k - 1) as nat)))
        }
    }
}

/// The index/payload pairs a sequence of blocks carries.
pub open spec fn spec_pairs_of(blocks: Seq<Block>) -> Seq<(nat, Seq<u8>)> {
    blocks.map_values(|b: Block| (b.index as nat, b.payload@))
}

/// Whether a byte slice is entirely zero.
pub fn is_all_zero(window: &[u8]) -> (r: bool)
    ensures
        r == spec_is_zero(window@),
{
    let mut i: usize = 0;
    while i < window.len()
        invariant
            i <= window@.len(),
            forall|j: int| 0 <= j < i ==> window@[j] == 0,
        decreases window@.len() - i,
    {
        if window[i] != 0 {
            return false;
        }
        i += 1;
    }
    true
}

/// Scan `data` in windows of `block_size` bytes and emit every window that
/// holds a non-zero byte, exactly once, in ascending index order, as a
/// block carrying its index, its bytes and their checksum. All-zero
/// windows are skipped: sparse regions of a source image must not be
/// uploaded.
pub fn scan_blocks(data: &[u8], block_size: usize) -> (r: Vec<Block>)
    requires
        block_size >= 1,
    ensures
        spec_pairs_of(r@) == spec_scan(
            data@,
            block_size as nat,
            spec_block_count(data@.len(), block_size as nat),
        ),
        forall|j: int|
            0 <= j < r@.len() ==> (#[trigger] r@[j]).checksum@ == spec_block_checksum(
                r@[j].payload@,
            ),
{
    let ghost bs = block_size as nat;
    let count = block_count(data.len(), block_size);
    let mut out: Vec<Block> = Vec::new();
    let mut i: usize = 0;
    while i < count
        invariant
            block_size >= 1,
            i <= count,
            data@.len() <= usize::MAX,
            count == spec_block_count(data@.len(), bs),
            bs == block_size as nat,
            spec_pairs_of(out@) == spec_scan(data@, bs, i as nat),
            forall|j: int|
                0 <= j < out@.len() ==> (#[trigger] out@[j]).checksum@ == spec_block_checksum(
                    out@[j].payload@,
                ),
        decreases count - i,
    {
        proof {
            lemma_offset_in_range(data@.len(), bs, i as nat);
        }
        let offset = i * block_size;
        let wlen = if block_size <= data.len() - offset {
            block_size
        } else {
            data.len() - offset
        };
        let window: &[u8] = &data[offset..offset + wlen];
        proof {
            assert(window@ =~= spec_window(data@, bs, i as nat));
        }
        if !is_all_zero(window) {
            let checksum = block_checksum(window);
            let payload = vstd::slice::slice_to_vec(window);
            out.push(Block { index: i, payload, checksum });
            proof {
                assert(spec_pairs_of(out@) =~= spec_scan(data@, bs, (i + 1) as nat));
            }
        }
        i += 1;
    }
    out
}

/// Every pair the scan emits points at a window inside the file, carries
/// exactly that window's bytes, and that window is not all zero.
pub proof fn lemma_scan_sound(data: Seq<u8>, bs: nat, k: nat)
    ensures
        forall|j: int|
            0 <= j < spec_scan(data, bs, k).len() ==> {
                let p = #[trigger] spec_scan(data, bs, k)[j];
                &&& p.0 < k
                &&& p.1 == spec_window(data, bs, p.0)
                &&& !spec_is_zero(p.1)
            },
    decreases k,
{
    if k > 0 {
        lemma_scan_sound(data, bs, (k - 1) as nat);
        let prior = spec_scan(data, bs, (k - 1) as nat);
        let s = spec_scan(data, bs, k);
        assert forall|j: int| 0 <= j < s.len() implies {
            let p = #[trigger] s[j];
            &&& p.0 < k
            &&& p.1 == spec_window(data, bs, p.0)
            &&& !spec_is_zero(p.1)
        } by {
            if j < prior.len() {
                assert(s[j] == prior[j]);
            } else {
                assert(s[j] == (((k - 1) as nat), spec_window(data, bs, (k - 1) as nat)));
            }
        }
    }
}

/// Every window inside the file that holds a non-zero byte is emitted:
/// the scan's pairs mention its index.
pub proof fn lemma_scan_complete(data: Seq<u8>, bs: nat, k: nat, index: nat)
    requires
        index < k,
        !spec_is_zero(spec_window(data, bs, index)),
    ensures
        exists|j: int|
            0 <= j < spec_scan(data, bs, k).len() && (#[trigger] spec_scan(data, bs, k)[j]).0
                == index,
    decreases k,
{
    if index == k - 1 {
        let s = spec_scan(data, bs, k);
        assert(s[s.len() - 1].0 == index);
    } else {
        lemma_scan_complete(data, bs, (k - 1) as nat, index);
        let prior = spec_scan(data, bs, (k - 1) as nat);
        let j = choose|j: int| 0 <= j < prior.len() && (#[trigger] prior[j]).0 == index;
        assert(spec_scan(data, bs, k)[j].0 == index);
    }
}

/// The scan's indices are strictly ascending, so no window is emitted
/// twice.
pub proof fn lemma_scan_ascending(data: Seq<u8>, bs: nat, k: nat)
    ensures
        forall|j1: int, j2: int|
            0 <= j1 < j2 < spec_scan(data, bs, k).len() ==> (#[trigger] spec_scan(data, bs, k)[j1]).0
                < (#[trigger] spec_scan(data, bs, k)[j2]).0,
    decreases k,
{
    if k > 0 {
        lemma_scan_ascending(data, bs, (k - 1) as nat);
        lemma_scan_sound(data, bs, (k - 1) as nat);
        let prior = spec_scan(data, bs, (k - 1) as nat);
        let s = spec_scan(data, bs, k);
        assert forall|j1: int, j2: int| 0 <= j1 < j2 < s.len() implies (#[trigger] s[j1]).0 < (
        #[trigger] s[j2]).0 by {
            assert(s[j1] == prior[j1]);
            if j2 < prior.len() {
                assert(s[j2] == prior[j2]);
            } else {
                assert(prior[j1].0 < (k - 1) as nat);
                assert(s[j2].0 == (k - 1) as nat);
            }
        }
    }
}

} // verus!
