//! Block addressing model: fixed-size blocks identified by a monotonic
//! index, with the byte-offset / block-index arithmetic shared by the
//! download and upload paths.

use vstd::prelude::*;

verus! {

/// The block size mandated by the remote snapshot API, in bytes (512 KiB).
pub const DEFAULT_BLOCK_SIZE: usize = 524288;

/// The byte offset at which the block with this index starts.
pub open spec fn spec_block_offset(index: nat, block_size: nat) -> nat {
    index * block_size
}

/// How many blocks a resource of `total_size` bytes spans: the smallest
/// count whose blocks cover every byte (the last block may be partial).
pub open spec fn spec_block_count(total_size: nat, block_size: nat) -> nat
    recommends
        block_size > 0,
{
    if total_size % block_size == 0 {
        total_size / block_size
    } else {
        total_size / block_size + 1
    }
}

/// The length of the block window with this index: a full block everywhere
/// except at the very end of the addressable range, where the window stops
/// at `total_size`.
pub open spec fn spec_window_len(total_size: nat, block_size: nat, index: nat) -> nat {
    if index * block_size + block_size <= total_size {
        block_size
    } else if index * block_size <= total_size {
        (total_size - index * block_size) as nat
    } else {
        0
    }
}

/// The byte offset of the block with this index.
pub fn block_offset(index: usize, block_size: usize) -> (r: usize)
    requires
        index * block_size <= usize::MAX,
    ensures
        r == spec_block_offset(index as nat, block_size as nat),
{
    index * block_size
}

/// The number of blocks needed to cover `total_size` bytes.
pub fn block_count(total_size: usize, block_size: usize) -> (r: usize)
    requires
        block_size > 0,
    ensures
        r == spec_block_count(total_size as nat, block_size as nat),
{
    if total_size % block_size == 0 {
        total_size / block_size
    } else {
        proof {
            vstd::arithmetic::div_mod::lemma_fundamental_div_mod(
                total_size as int,
                block_size as int,
            );
            let q: int = total_size as int / block_size as int;
            assert(block_size * q >= q) by (nonlinear_arith)
                requires
                    block_size >= 1,
                    q >= 0,
            ;
        }
        total_size / block_size + 1
    }
}

/// Every byte offset below `total_size` falls in a block whose index is
/// below the block count.
pub proof fn lemma_block_count_covers(total_size: nat, block_size: nat, offset: nat)
    requires
        block_size > 0,
        offset < total_size,
    ensures
        offset / block_size < spec_block_count(total_size, block_size),
        spec_block_offset(offset / block_size, block_size) <= offset,
{
    let i = offset / block_size;
    vstd::arithmetic::div_mod::lemma_fundamental_div_mod(offset as int, block_size as int);
    vstd::arithmetic::div_mod::lemma_fundamental_div_mod(total_size as int, block_size as int);
    assert(offset == block_size * i + offset % block_size);
    if total_size % block_size == 0 {
        let c = total_size / block_size;
        assert(total_size == block_size * c);
        if i >= c {
            assert(block_size * i >= block_size * c) by (nonlinear_arith)
                requires block_size > 0 && i >= c;
        }
    } else {
        let c = total_size / block_size;
        assert(total_size == block_size * c + total_size % block_size);
        if i >= c + 1 {
            assert(block_size * i >= block_size * (c + 1)) by (nonlinear_arith)
                requires block_size > 0 && i >= c + 1;
            assert(block_size * (c + 1) == block_size * c + block_size) by (nonlinear_arith);
        }
    }
    assert(spec_block_offset(i, block_size) == i * block_size);
    assert(block_size * i == i * block_size) by (nonlinear_arith);
}

/// Past the block count a window is empty.
pub proof fn lemma_window_len_zero_past_count(total: nat, bs: nat, index: nat)
    requires
        bs >= 1,
        index >= spec_block_count(total, bs),
    ensures
        spec_window_len(total, bs, index) == 0,
{
    vstd::arithmetic::div_mod::lemma_fundamental_div_mod(total as int, bs as int);
    let q = total / bs;
    assert(index * bs >= spec_block_count(total, bs) * bs) by (nonlinear_arith)
        requires
            bs >= 1,
            index >= spec_block_count(total, bs),
    ;
    if total % bs == 0 {
        assert(q * bs == bs * q) by (nonlinear_arith);
    } else {
        assert((q + 1) * bs == bs * q + bs) by (nonlinear_arith);
    }
}

/// Below the block count the window starts inside the file and is the
/// smaller of one block and what remains.
pub proof fn lemma_offset_in_range(total: nat, bs: nat, index: nat)
    requires
        bs >= 1,
        index < spec_block_count(total, bs),
    ensures
        index * bs < total,
        spec_window_len(total, bs, index) == if bs <= total - index * bs {
            bs
        } else {
            (total - index * bs) as nat
        },
{
    vstd::arithmetic::div_mod::lemma_fundamental_div_mod(total as int, bs as int);
    let q = total / bs;
    let c = spec_block_count(total, bs);
    assert(index * bs <= (c - 1) * bs) by (nonlinear_arith)
        requires
            bs >= 1,
            index <= c - 1,
    ;
    if total % bs == 0 {
        assert((c - 1) * bs == bs * q - bs) by (nonlinear_arith)
            requires
                c == q,
        ;
    } else {
        assert((c - 1) * bs == bs * q) by (nonlinear_arith)
            requires
                c == q + 1,
        ;
    }
}

/// A block in flight: its index within the resource, its raw payload, and
/// the digest attested for (download) or computed over (upload) the payload,
/// carried as the bytes of its textual encoding.
pub struct Block {
    pub index: usize,
    pub payload: Vec<u8>,
    pub checksum: Vec<u8>,
}

} // verus!
