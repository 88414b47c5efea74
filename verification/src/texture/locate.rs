//! The locator of offsets in a partition. A partition stores each asset as
//! a run of compressed blocks, each behind a header of eight bytes. A
//! sub-offset recorded in a sub-header need not fall on the boundary of a
//! block: the locator gives the boundary nearest to it.

use crate::error::BuildError;
use vstd::prelude::*;

verus! {

/// The number of bytes of the header of a block.
pub const BLOCK_HEADER_LEN: usize = 8;

/// The unsigned 32-bit integer stored big-endian at `at`.
pub open spec fn u32_be(data: Seq<u8>, at: int) -> int {
    16777216 * (data[at] as int) + 65536 * (data[at + 1] as int) + 256 * (data[at + 2] as int)
        + data[at + 3] as int
}

/// Whether the eight bytes at `at` lie inside `data`.
pub open spec fn header_fits(data: Seq<u8>, at: int) -> bool {
    0 <= at && at + BLOCK_HEADER_LEN <= data.len()
}

/// Whether the eight bytes at `at` are marked as the header of a block: the
/// first is 0x80 and the low half of the last is 1.
pub open spec fn is_block_header(data: Seq<u8>, at: int) -> bool {
    data[at] == 0x80 && data[at + 7] % 16 == 1
}

/// The length of the compressed block whose header stands at `at`: the 24
/// bits above the lowest two of the first four bytes.
pub open spec fn block_compressed_len(data: Seq<u8>, at: int) -> int {
    (u32_be(data, at) / 4) % 0x100_0000
}

/// The length that the block whose header stands at `at` has once it is
/// decompressed: the 24 bits above the lowest five of the last four bytes.
pub open spec fn block_decompressed_len(data: Seq<u8>, at: int) -> int {
    (u32_be(data, at + 4) / 32) % 0x100_0000
}

/// Reads the header of a block at `at`: the length of the block as it is
/// stored and its length once decompressed. There is none where eight bytes
/// do not fit or are not marked as a header.
pub fn get_block_lengths(data: &[u8], at: usize) -> (lengths: Option<(u32, u32)>)
    ensures
        lengths is Some <==> header_fits(data@, at as int) && is_block_header(data@, at as int),
        lengths is Some ==> lengths == Some(
            (
                block_compressed_len(data@, at as int) as u32,
                block_decompressed_len(data@, at as int) as u32,
            ),
        ),
{
    if data.len() < BLOCK_HEADER_LEN || at > data.len() - BLOCK_HEADER_LEN {
        return None;
    }
    if data[at] != 0x80 || data[at + 7] % 16 != 1 {
        return None;
    }
    let first: u32 = 16777216 * (data[at] as u32) + 65536 * (data[at + 1] as u32) + 256 * (data[at
        + 2] as u32) + data[at + 3] as u32;
    let second: u32 = 16777216 * (data[at + 4] as u32) + 65536 * (data[at + 5] as u32) + 256 * (
    data[at + 6] as u32) + data[at + 7] as u32;
    Some(((first / 4) % 0x100_0000, (second / 32) % 0x100_0000))
}

/// The offset, counted from `base`, of the boundary behind the first `count`
/// blocks: each block takes its header and its compressed length.
pub open spec fn boundary(data: Seq<u8>, base: int, count: nat) -> int
    decreases count,
{
    if count == 0 {
        0
    } else {
        let before = boundary(data, base, (count - 1) as nat);
        before + BLOCK_HEADER_LEN + block_compressed_len(data, base + before)
    }
}

/// Of the boundary before a sub-offset and the boundary at or behind it, the
/// one nearer to the sub-offset; the later one where both are equally near.
pub open spec fn nearest(bottom: int, top: int, target: int) -> int {
    if top - target > target - bottom {
        bottom
    } else {
        top
    }
}

/// What the walk along the blocks gives when it stands before the block with
/// the index `from`. It ends at the first block whose end reaches `target`.
/// It fails where a block does not lie whole inside `data`, or where no
/// header stands at a boundary.
pub open spec fn walk(data: Seq<u8>, base: int, target: int, from: nat) -> Result<int, BuildError>
    decreases data.len() - (base + boundary(data, base, from)),
{
    let bottom = boundary(data, base, from);
    let top = boundary(data, base, from + 1);
    if !header_fits(data, base + bottom) {
        Err(BuildError::Truncated)
    } else if !is_block_header(data, base + bottom) {
        Err(BuildError::UnknownFormat)
    } else if base + top > data.len() {
        Err(BuildError::Truncated)
    } else if top >= target {
        Ok(nearest(bottom, top, target))
    } else {
        walk(data, base, target, from + 1)
    }
}

/// The boundary nearest to `target_sub_offset` among the boundaries of the
/// blocks that start at `base_offset` in `partition`, counted from
/// `base_offset`.
pub fn locate(partition: &[u8], base_offset: usize, target_sub_offset: u64) -> (located: Result<
    u64,
    BuildError,
>)
    ensures
        match located {
            Ok(offset) => walk(partition@, base_offset as int, target_sub_offset as int, 0) == Ok::<
                int,
                BuildError,
            >(offset as int),
            Err(error) => walk(partition@, base_offset as int, target_sub_offset as int, 0) == Err::<
                int,
                BuildError,
            >(error),
        },
{
    let len = partition.len();
    if base_offset > len {
        return Err(BuildError::Truncated);
    }
    let mut at: usize = base_offset;
    let mut bottom: u64 = 0;
    let ghost mut index: nat = 0;
    loop
        invariant
            len == partition@.len(),
            base_offset <= at <= len,
            at == base_offset + bottom,
            bottom <= target_sub_offset,
            bottom == boundary(partition@, base_offset as int, index),
            walk(partition@, base_offset as int, target_sub_offset as int, 0) == walk(
                partition@,
                base_offset as int,
                target_sub_offset as int,
                index,
            ),
        decreases len - at,
    {
        if len - at < BLOCK_HEADER_LEN {
            return Err(BuildError::Truncated);
        }
        let compressed = match get_block_lengths(partition, at) {
            Some(lengths) => lengths.0,
            None => { return Err(BuildError::UnknownFormat); },
        };
        if compressed as usize > len - at - BLOCK_HEADER_LEN {
            return Err(BuildError::Truncated);
        }
        let top: u64 = bottom + BLOCK_HEADER_LEN as u64 + compressed as u64;
        if top >= target_sub_offset {
            return Ok(
                if top - target_sub_offset > target_sub_offset - bottom {
                    bottom
                } else {
                    top
                },
            );
        }
        bottom = top;
        at = at + BLOCK_HEADER_LEN + compressed as usize;
        proof {
            index = index + 1;
        }
    }
}

/// Every block takes at least its header: the boundaries grow.
pub proof fn lemma_boundaries_grow(data: Seq<u8>, base: int, earlier: nat, later: nat)
    requires
        earlier <= later,
    ensures
        0 <= boundary(data, base, earlier),
        boundary(data, base, earlier) + BLOCK_HEADER_LEN * (later - earlier) <= boundary(
            data,
            base,
            later,
        ),
    decreases later,
{
    if earlier < later {
        lemma_boundaries_grow(data, base, earlier, (later - 1) as nat);
    } else if earlier > 0 {
        lemma_boundaries_grow(data, base, (earlier - 1) as nat, (earlier - 1) as nat);
    }
}

/// The distance between two offsets.
pub open spec fn distance(a: int, b: int) -> int {
    if a >= b {
        a - b
    } else {
        b - a
    }
}

proof fn lemma_walk_ends(data: Seq<u8>, base: int, target: int, from: nat) -> (last: nat)
    requires
        walk(data, base, target, from) is Ok,
        boundary(data, base, from) <= target,
    ensures
        from <= last,
        boundary(data, base, last) <= target <= boundary(data, base, last + 1),
        walk(data, base, target, from) == Ok::<int, BuildError>(
            nearest(boundary(data, base, last), boundary(data, base, last + 1), target),
        ),
    decreases data.len() - (base + boundary(data, base, from)),
{
    if boundary(data, base, from + 1) >= target {
        from
    } else {
        lemma_walk_ends(data, base, target, from + 1)
    }
}

/// What the locator gives is a boundary, and no boundary is nearer to the
/// sub-offset; of two boundaries equally near, it gives the later one.
pub proof fn lemma_locate_gives_nearest_boundary(
    data: Seq<u8>,
    base: int,
    target: int,
    count: nat,
)
    requires
        0 <= target,
        walk(data, base, target, 0) is Ok,
    ensures
        exists|found: nat| walk(data, base, target, 0)->Ok_0 == boundary(data, base, found),
        distance(walk(data, base, target, 0)->Ok_0, target) <= distance(
            boundary(data, base, count),
            target,
        ),
        distance(walk(data, base, target, 0)->Ok_0, target) == distance(
            boundary(data, base, count),
            target,
        ) ==> boundary(data, base, count) <= walk(data, base, target, 0)->Ok_0,
{
    let last = lemma_walk_ends(data, base, target, 0);
    let bottom = boundary(data, base, last);
    let top = boundary(data, base, last + 1);
    let found = walk(data, base, target, 0)->Ok_0;
    if found == bottom {
        assert(found == boundary(data, base, last));
    } else {
        assert(found == boundary(data, base, last + 1));
    }
    if count <= last {
        lemma_boundaries_grow(data, base, count, last);
    } else {
        lemma_boundaries_grow(data, base, last + 1, count);
    }
}

} // verus!
