//! Downloader: verify and write fetched snapshot blocks into a disk image
//! sized to the snapshot's reported length. Every block's payload is
//! checked against its attested checksum before it is written; the first
//! block that fails aborts the download, leaving what was already written
//! in place.

use vstd::prelude::*;
use crate::block::{Block, spec_window_len};
use crate::checksum::{checksum_matches, spec_block_checksum};
use crate::errors::DownloadError;
use crate::image::{DiskImage, spec_write_at, spec_zeros};
use crate::scanner::spec_pairs_of;

verus! {

/// `base` with each listed payload laid down in turn at its index's byte
/// offset.
pub open spec fn spec_apply_blocks(base: Seq<u8>, bs: nat, pairs: Seq<(nat, Seq<u8>)>) -> Seq<u8>
    decreases pairs.len(),
{
    if pairs.len() == 0 {
        base
    } else {
        spec_apply_blocks(
            spec_write_at(base, pairs[0].0 * bs, pairs[0].1),
            bs,
            pairs.drop_first(),
        )
    }
}

/// Applying one more block at the end is one more write after the rest.
pub proof fn lemma_apply_blocks_push(
    base: Seq<u8>,
    bs: nat,
    pairs: Seq<(nat, Seq<u8>)>,
    p: (nat, Seq<u8>),
)
    ensures
        spec_apply_blocks(base, bs, pairs.push(p)) == spec_write_at(
            spec_apply_blocks(base, bs, pairs),
            p.0 * bs,
            p.1,
        ),
    decreases pairs.len(),
{
    if pairs.len() == 0 {
        let s = pairs.push(p);
        assert(s[0] == p);
        assert(s.drop_first() =~= Seq::<(nat, Seq<u8>)>::empty());
        assert(spec_apply_blocks(spec_write_at(base, p.0 * bs, p.1), bs, s.drop_first())
            == spec_write_at(base, p.0 * bs, p.1));
        assert(spec_apply_blocks(base, bs, s) == spec_write_at(base, p.0 * bs, p.1));
    } else {
        assert(pairs.push(p)[0] == pairs[0]);
        assert(pairs.push(p).drop_first() =~= pairs.drop_first().push(p));
        lemma_apply_blocks_push(
            spec_write_at(base, pairs[0].0 * bs, pairs[0].1),
            bs,
            pairs.drop_first(),
            p,
        );
    }
}

/// Whether a fetched block is admitted: its attested checksum matches the
/// digest computed over its payload, and the payload exactly fills the
/// window its index addresses.
pub open spec fn spec_block_ok(total: nat, bs: nat, b: Block) -> bool {
    &&& b.checksum@ == spec_block_checksum(b.payload@)
    &&& b.payload@.len() == spec_window_len(total, bs, b.index as nat)
    &&& b.payload@.len() > 0
}

/// The position of the first fetched block that is not admitted; the
/// list's length when every block is.
pub open spec fn spec_first_rejected(total: nat, bs: nat, blocks: Seq<Block>) -> nat
    decreases blocks.len(),
{
    if blocks.len() == 0 {
        0
    } else if !spec_block_ok(total, bs, blocks[0]) {
        0
    } else {
        1 + spec_first_rejected(total, bs, blocks.drop_first())
    }
}

/// The error reported for a block that was not admitted: an integrity
/// mismatch when its checksum did not match, otherwise a size mismatch.
pub open spec fn spec_rejection_error(total: nat, bs: nat, b: Block) -> DownloadError {
    if b.checksum@ != spec_block_checksum(b.payload@) {
        DownloadError::Integrity { index: b.index }
    } else {
        DownloadError::SizeMismatch { index: b.index }
    }
}

/// When every block before `k` is admitted, and `k` is the list's length
/// or holds a block that is not, `k` is the first rejected position.
pub proof fn lemma_first_rejected_is(total: nat, bs: nat, blocks: Seq<Block>, k: nat)
    requires
        k <= blocks.len(),
        forall|j: int| 0 <= j < k ==> spec_block_ok(total, bs, #[trigger] blocks[j]),
        k < blocks.len() ==> !spec_block_ok(total, bs, blocks[k as int]),
    ensures
        spec_first_rejected(total, bs, blocks) == k,
    decreases blocks.len(),
{
    if blocks.len() > 0 && k > 0 {
        let rest = blocks.drop_first();
        assert forall|j: int| 0 <= j < k - 1 implies spec_block_ok(total, bs, #[trigger] rest[j]) by {
            assert(rest[j] == blocks[j + 1]);
        }
        if (k - 1) < rest.len() {
            assert(rest[k - 1] == blocks[k as int]);
        }
        lemma_first_rejected_is(total, bs, rest, (k - 1) as nat);
    }
}

/// Verify and write each fetched block in turn. A block's payload is
/// first checked against its attested checksum, then written at offset
/// `index * block_size`. The first block that fails aborts the whole
/// download with that block's error; everything written before it stays
/// in place, and nothing of the failing block is written.
pub fn download_into(image: &mut DiskImage, blocks: &Vec<Block>) -> (r: Result<(), DownloadError>)
    requires
        old(image).wf(),
    ensures
        final(image).wf(),
        final(image).block_size() == old(image).block_size(),
        ({
            let total = old(image).contents().len();
            let bs = old(image).block_size() as nat;
            let f = spec_first_rejected(total, bs, blocks@);
            &&& final(image).contents() == spec_apply_blocks(
                old(image).contents(),
                bs,
                spec_pairs_of(blocks@.take(f as int)),
            )
            &&& (f == blocks@.len() ==> r matches Ok(()))
            &&& (f < blocks@.len() ==> (r matches Err(e) && e == spec_rejection_error(
                total,
                bs,
                blocks@[f as int],
            )))
        }),
{
    let ghost base = image.contents();
    let ghost bs = image.block_size() as nat;
    let ghost total = image.contents().len();
    let mut i: usize = 0;
    while i < blocks.len()
        invariant
            i <= blocks@.len(),
            image.wf(),
            base == old(image).contents(),
            bs == old(image).block_size() as nat,
            total == old(image).contents().len(),
            image.block_size() == old(image).block_size(),
            image.contents().len() == total,
            forall|j: int| 0 <= j < i ==> spec_block_ok(total, bs, #[trigger] blocks@[j]),
            image.contents() == spec_apply_blocks(base, bs, spec_pairs_of(blocks@.take(i as int))),
        decreases blocks@.len() - i,
    {
        let b = &blocks[i];
        if !checksum_matches(b.payload.as_slice(), b.checksum.as_slice()) {
            proof {
                lemma_first_rejected_is(total, bs, blocks@, i as nat);
            }
            return Err(DownloadError::Integrity { index: b.index });
        }
        let ghost pre = image.contents();
        match image.write_block(b.index, b.payload.as_slice()) {
            Ok(()) => {
                proof {
                    let pairs_i = spec_pairs_of(blocks@.take(i as int));
                    let p = (b.index as nat, b.payload@);
                    assert(spec_pairs_of(blocks@.take(i + 1)) =~= pairs_i.push(p));
                    lemma_apply_blocks_push(base, bs, pairs_i, p);
                }
            },
            Err(_) => {
                proof {
                    lemma_first_rejected_is(total, bs, blocks@, i as nat);
                }
                return Err(DownloadError::SizeMismatch { index: b.index });
            },
        }
        i += 1;
    }
    proof {
        lemma_first_rejected_is(total, bs, blocks@, blocks@.len());
        assert(blocks@.take(blocks@.len() as int) =~= blocks@);
    }
    Ok(())
}

/// Materialize a snapshot as a disk image: size the image to the
/// snapshot's total length — so every unpopulated region reads as zero —
/// then verify and write every fetched block. Succeeds exactly when every
/// fetched block is admitted; the first failure aborts the download and
/// names the block.
pub fn download_to_file(total_size: usize, block_size: usize, blocks: &Vec<Block>) -> (r: Result<
    DiskImage,
    DownloadError,
>)
    requires
        block_size >= 1,
    ensures
        ({
            let f = spec_first_rejected(total_size as nat, block_size as nat, blocks@);
            &&& (f == blocks@.len() ==> (r matches Ok(img) && img.wf() && img.block_size()
                == block_size && img.contents() == spec_apply_blocks(
                spec_zeros(total_size as nat),
                block_size as nat,
                spec_pairs_of(blocks@),
            )))
            &&& (f < blocks@.len() ==> (r matches Err(e) && e == spec_rejection_error(
                total_size as nat,
                block_size as nat,
                blocks@[f as int],
            )))
        }),
{
    let mut image = DiskImage::new(total_size, block_size);
    proof {
        let f = spec_first_rejected(total_size as nat, block_size as nat, blocks@);
        if f == blocks@.len() {
            assert(blocks@.take(f as int) =~= blocks@);
        }
    }
    match download_into(&mut image, blocks) {
        Ok(()) => Ok(image),
        Err(e) => Err(e),
    }
}

/// A byte position that no listed block covers keeps its base value: a
/// downloaded image reads zero wherever no populated block was written.
pub proof fn lemma_apply_blocks_untouched(
    base: Seq<u8>,
    bs: nat,
    pairs: Seq<(nat, Seq<u8>)>,
    p: int,
)
    requires
        0 <= p < base.len(),
        forall|j: int|
            0 <= j < pairs.len() ==> !((#[trigger] pairs[j]).0 * bs <= p < pairs[j].0 * bs
                + pairs[j].1.len()),
    ensures
        spec_apply_blocks(base, bs, pairs)[p] == base[p],
    decreases pairs.len(),
{
    if pairs.len() > 0 {
        let written = spec_write_at(base, pairs[0].0 * bs, pairs[0].1);
        assert(written[p] == base[p]);
        let rest = pairs.drop_first();
        assert forall|j: int| 0 <= j < rest.len() implies !((#[trigger] rest[j]).0 * bs <= p
            < rest[j].0 * bs + rest[j].1.len()) by {
            assert(rest[j] == pairs[j + 1]);
        }
        lemma_apply_blocks_untouched(written, bs, rest, p);
    }
}

/// A downloaded image reads zero at every byte position that no fetched
/// block covers: the unpopulated regions of the snapshot stay holes.
pub proof fn lemma_download_reads_zero_outside_blocks(
    total: nat,
    bs: nat,
    pairs: Seq<(nat, Seq<u8>)>,
    p: int,
)
    requires
        0 <= p < total,
        forall|j: int|
            0 <= j < pairs.len() ==> !((#[trigger] pairs[j]).0 * bs <= p < pairs[j].0 * bs
                + pairs[j].1.len()),
    ensures
        spec_apply_blocks(spec_zeros(total), bs, pairs)[p] == 0,
{
    lemma_apply_blocks_untouched(spec_zeros(total), bs, pairs, p);
}

/// A byte position that block `j` covers, and no later block covers,
/// reads back that block's payload byte: with distinct block indices,
/// every written block survives to the end of the download.
pub proof fn lemma_apply_blocks_written(
    base: Seq<u8>,
    bs: nat,
    pairs: Seq<(nat, Seq<u8>)>,
    j: int,
    p: int,
)
    requires
        0 <= j < pairs.len(),
        0 <= p < base.len(),
        pairs[j].0 * bs <= p < pairs[j].0 * bs + pairs[j].1.len(),
        forall|j2: int|
            j < j2 < pairs.len() ==> !((#[trigger] pairs[j2]).0 * bs <= p < pairs[j2].0 * bs
                + pairs[j2].1.len()),
    ensures
        spec_apply_blocks(base, bs, pairs)[p] == pairs[j].1[p - pairs[j].0 * bs],
    decreases pairs.len(),
{
    let written = spec_write_at(base, pairs[0].0 * bs, pairs[0].1);
    let rest = pairs.drop_first();
    if j == 0 {
        assert(written[p] == pairs[0].1[p - pairs[0].0 * bs]);
        assert forall|j2: int| 0 <= j2 < rest.len() implies !((#[trigger] rest[j2]).0 * bs <= p
            < rest[j2].0 * bs + rest[j2].1.len()) by {
            assert(rest[j2] == pairs[j2 + 1]);
        }
        lemma_apply_blocks_untouched(written, bs, rest, p);
    } else {
        assert(rest[j - 1] == pairs[j]);
        assert forall|j2: int| j - 1 < j2 < rest.len() implies !((#[trigger] rest[j2]).0 * bs <= p
            < rest[j2].0 * bs + rest[j2].1.len()) by {
            assert(rest[j2] == pairs[j2 + 1]);
        }
        lemma_apply_blocks_written(written, bs, rest, j - 1, p);
    }
}

} // verus!
