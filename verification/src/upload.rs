//! Uploader: partition a local file's contents into fixed-size blocks,
//! skip the all-zero windows, checksum what remains, and describe the
//! snapshot to register: its total size, its sparse block count, and the
//! blocks to submit. Uploading and then downloading the result rebuilds
//! the file byte for byte.

use vstd::prelude::*;
use crate::block::{
    Block, block_count, lemma_block_count_covers, lemma_offset_in_range, spec_block_count,
    spec_window_len,
};
use crate::checksum::spec_block_checksum;
use crate::download::{
    lemma_apply_blocks_push, lemma_first_rejected_is, spec_apply_blocks, spec_block_ok,
    spec_first_rejected,
};
use crate::image::{spec_write_at, spec_zeros};
use crate::scanner::{scan_blocks, spec_is_zero, spec_pairs_of, spec_scan, spec_window};

verus! {

/// Everything the remote side must be told to register a snapshot of a
/// local file: the file's length, the block size, the count of blocks the
/// file spans — the sparse, skipped windows included — and the non-zero
/// blocks to submit.
pub struct UploadPlan {
    pub total_size: usize,
    pub block_size: usize,
    pub block_count: usize,
    pub blocks: Vec<Block>,
}

/// Partition `data` into windows of `block_size` bytes and plan its
/// upload: every window that holds a non-zero byte becomes a block to
/// submit, carrying its locally computed checksum; all-zero windows are
/// skipped, though the reported block count still spans them.
pub fn upload_from_file(data: &[u8], block_size: usize) -> (r: UploadPlan)
    requires
        block_size >= 1,
    ensures
        r.total_size == data@.len(),
        r.block_size == block_size,
        r.block_count as nat == spec_block_count(data@.len(), block_size as nat),
        spec_pairs_of(r.blocks@) == spec_scan(
            data@,
            block_size as nat,
            spec_block_count(data@.len(), block_size as nat),
        ),
        forall|j: int|
            0 <= j < r.blocks@.len() ==> (#[trigger] r.blocks@[j]).checksum@
                == spec_block_checksum(r.blocks@[j].payload@),
{
    let total_size = data.len();
    let count = block_count(total_size, block_size);
    let blocks = scan_blocks(data, block_size);
    UploadPlan { total_size, block_size, block_count: count, blocks }
}

/// The merge of `base` and `data` after the first `k` windows were
/// scanned and applied: a byte of a non-zero window among those `k` comes
/// from `data`, every other byte from `base`.
pub open spec fn spec_merge(base: Seq<u8>, data: Seq<u8>, bs: nat, k: nat) -> Seq<u8> {
    Seq::new(
        base.len(),
        |p: int|
            if p / (bs as int) < k && !spec_is_zero(
                spec_window(data, bs, (p / (bs as int)) as nat),
            ) {
                data[p]
            } else {
                base[p]
            },
    )
}

/// A position `p` lies in the window with index `i` exactly when `i` is
/// `p`'s block index; the window's bytes there are `data`'s.
proof fn lemma_window_coverage(data: Seq<u8>, bs: nat, i: nat, p: int)
    requires
        bs >= 1,
        0 <= p < data.len(),
        i < spec_block_count(data.len(), bs),
    ensures
        (i * bs <= p < i * bs + spec_window_len(data.len(), bs, i)) <==> (p / (bs as int)
            == i as int),
        p / (bs as int) == i as int ==> spec_window(data, bs, i)[p - i * bs] == data[p],
{
    let b = bs as int;
    lemma_offset_in_range(data.len(), bs, i);
    vstd::arithmetic::div_mod::lemma_fundamental_div_mod(p, b);
    let wlen = spec_window_len(data.len(), bs, i);
    if i * bs <= p < i * bs + wlen {
        vstd::arithmetic::div_mod::lemma_fundamental_div_mod_converse(
            p,
            b,
            i as int,
            p - i as int * b,
        );
    }
    if p / b == i as int {
        assert(p == b * (p / b) + p % b);
        assert(b * (p / b) == i * bs) by (nonlinear_arith)
            requires
                p / b == i as int,
                b == bs,
        ;
        assert(p % b < b);
        assert(p - i * bs < wlen);
        assert(spec_window(data, bs, i)[p - i * bs] == data[p]);
    }
}

/// Applying what a scan of the first `k` windows emits writes exactly the
/// non-zero windows among them and touches nothing else.
proof fn lemma_apply_scan(base: Seq<u8>, data: Seq<u8>, bs: nat, k: nat)
    requires
        bs >= 1,
        base.len() == data.len(),
        k <= spec_block_count(data.len(), bs),
    ensures
        spec_apply_blocks(base, bs, spec_scan(data, bs, k)) == spec_merge(base, data, bs, k),
    decreases k,
{
    let b = bs as int;
    if k == 0 {
        assert(spec_merge(base, data, bs, 0) =~= base);
    } else {
        let k1 = (k - 1) as nat;
        lemma_apply_scan(base, data, bs, k1);
        let prev = spec_merge(base, data, bs, k1);
        let w = spec_window(data, bs, k1);
        lemma_offset_in_range(data.len(), bs, k1);
        if spec_is_zero(w) {
            assert(spec_scan(data, bs, k) == spec_scan(data, bs, k1));
            assert forall|p: int| 0 <= p < base.len() implies spec_merge(base, data, bs, k)[p]
                == prev[p] by {
                lemma_window_coverage(data, bs, k1, p);
            }
            assert(spec_merge(base, data, bs, k) =~= prev);
        } else {
            assert(spec_scan(data, bs, k) == spec_scan(data, bs, k1).push((k1, w)));
            lemma_apply_blocks_push(base, bs, spec_scan(data, bs, k1), (k1, w));
            assert forall|p: int| 0 <= p < base.len() implies spec_merge(base, data, bs, k)[p]
                == spec_write_at(prev, k1 * bs, w)[p] by {
                lemma_window_coverage(data, bs, k1, p);
                if k1 * bs <= p < k1 * bs + w.len() {
                    assert(spec_write_at(prev, k1 * bs, w)[p] == w[p - k1 * bs]);
                } else {
                    assert(spec_write_at(prev, k1 * bs, w)[p] == prev[p]);
                }
            }
            assert(spec_merge(base, data, bs, k) =~= spec_write_at(prev, k1 * bs, w));
        }
    }
}

/// Every block a scan of the whole file emits is admitted by the
/// downloader: its checksum is the digest of its payload, and its payload
/// exactly fills the window its index addresses.
pub proof fn lemma_scan_blocks_admissible(data: Seq<u8>, bs: nat, blocks: Seq<Block>)
    requires
        bs >= 1,
        spec_pairs_of(blocks) == spec_scan(data, bs, spec_block_count(data.len(), bs)),
        forall|j: int|
            0 <= j < blocks.len() ==> (#[trigger] blocks[j]).checksum@ == spec_block_checksum(
                blocks[j].payload@,
            ),
    ensures
        spec_first_rejected(data.len(), bs, blocks) == blocks.len(),
{
    let count = spec_block_count(data.len(), bs);
    crate::scanner::lemma_scan_sound(data, bs, count);
    assert forall|j: int| 0 <= j < blocks.len() implies spec_block_ok(
        data.len(),
        bs,
        #[trigger] blocks[j],
    ) by {
        let pairs = spec_pairs_of(blocks);
        assert(pairs[j] == (blocks[j].index as nat, blocks[j].payload@));
        assert(pairs[j].0 < count && pairs[j].1 == spec_window(data, bs, pairs[j].0)
            && !spec_is_zero(pairs[j].1));
        lemma_offset_in_range(data.len(), bs, pairs[j].0);
        assert(blocks[j].payload@.len() == spec_window_len(
            data.len(),
            bs,
            blocks[j].index as nat,
        ));
        if blocks[j].payload@.len() == 0 {
            assert(spec_is_zero(pairs[j].1));
        }
    }
    lemma_first_rejected_is(data.len(), bs, blocks, blocks.len());
}

/// Round trip: uploading a file and then downloading the snapshot the
/// plan describes rebuilds the file byte for byte. Every block the plan
/// submits passes the downloader's verification, and once they are all
/// written into an image of the file's length, the written windows carry
/// the file's non-zero bytes and the untouched regions read as the zeros
/// they stood for.
pub proof fn lemma_upload_download_round_trip(data: Seq<u8>, bs: nat, blocks: Seq<Block>)
    requires
        bs >= 1,
        spec_pairs_of(blocks) == spec_scan(data, bs, spec_block_count(data.len(), bs)),
        forall|j: int|
            0 <= j < blocks.len() ==> (#[trigger] blocks[j]).checksum@ == spec_block_checksum(
                blocks[j].payload@,
            ),
    ensures
        spec_first_rejected(data.len(), bs, blocks) == blocks.len(),
        spec_apply_blocks(spec_zeros(data.len()), bs, spec_pairs_of(blocks)) == data,
{
    lemma_scan_blocks_admissible(data, bs, blocks);
    let count = spec_block_count(data.len(), bs);
    let zeros = spec_zeros(data.len());
    lemma_apply_scan(zeros, data, bs, count);
    let merged = spec_merge(zeros, data, bs, count);
    assert forall|p: int| 0 <= p < data.len() implies merged[p] == data[p] by {
        let b = bs as int;
        lemma_block_count_covers(data.len(), bs, p as nat);
        let i = (p / b) as nat;
        lemma_window_coverage(data, bs, i, p);
        if spec_is_zero(spec_window(data, bs, i)) {
            assert(spec_window(data, bs, i)[p - i * bs] == data[p]);
            assert(data[p] == 0);
        }
    }
    assert(merged =~= data);
}

} // verus!
