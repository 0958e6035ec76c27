//! Splitting a byte range of the disk at block boundaries.
use vstd::prelude::*;

use crate::model::{self, RootfsView};

verus! {

/// A part of a request that lies in a single block.
#[derive(Clone, Copy, Debug, PartialEq, Eq, Structural)]
pub struct Segment {
    /// Where the segment begins on the disk.
    pub offset: u64,
    /// Where the segment begins in the request's data.
    pub start: u64,
    /// How many bytes it holds.
    pub len: u64,
}

/// The segments of the `len` bytes at `offset`, of which the first holds the request's data from
/// `start` on: as many bytes as the request and the block have left, and then the rest.
pub open spec fn segments(block_size: u64, offset: int, len: int, start: int) -> Seq<Segment>
    decreases len,
{
    let block_left = block_size - offset % block_size as int;
    let taken = if len < block_left {
        len
    } else {
        block_left
    };
    if len <= 0 || taken <= 0 {
        seq![]
    } else {
        seq![Segment { offset: offset as u64, start: start as u64, len: taken as u64 }] + segments(
            block_size,
            offset + taken,
            len - taken,
            start + taken,
        )
    }
}

/// The segments of a request are not empty, each lies in one block, and one begins where the one
/// before it ended, from the first byte of the request to the last. All but the first begin where
/// a block begins.
pub open spec fn partition(
    disk: RootfsView,
    parts: Seq<Segment>,
    offset: int,
    len: int,
    start: int,
) -> bool {
    &&& parts.len() == 0 <==> len == 0
    &&& parts.len() > 0 ==> parts[0].start == start
    &&& parts.len() > 0 ==> parts.last().start + parts.last().len == start + len
    &&& forall|j: int|
        0 <= j < parts.len() ==> {
            &&& (#[trigger] parts[j]).offset - parts[j].start == offset - start
            &&& disk.in_one_block(parts[j].offset as int, parts[j].len as int)
            &&& start <= parts[j].start
            &&& parts[j].start + parts[j].len <= start + len
        }
    &&& forall|i: int, j: int|
        0 <= i < parts.len() && j == i + 1 && j < parts.len() ==> (#[trigger] parts[j]).start == (
        #[trigger] parts[i]).start + parts[i].len
    &&& forall|j: int|
        0 < j < parts.len() ==> disk.block_start(disk.block_of((#[trigger] parts[j]).offset as int))
            == parts[j].offset
}

/// A request that lies on the disk is split into segments without a gap or an overlap.
pub proof fn law_segments_partition(disk: RootfsView, offset: int, len: int, start: int)
    requires
        disk.valid(),
        0 <= offset,
        0 <= len,
        0 <= start,
        offset + len <= disk.logical_size,
        start + len <= u64::MAX,
    ensures
        partition(disk, segments(disk.block_size, offset, len, start), offset, len, start),
    decreases len,
{
    let parts = segments(disk.block_size, offset, len, start);
    let size = disk.block_size as int;
    let block_left = size - offset % size;
    let taken = if len < block_left {
        len
    } else {
        block_left
    };
    assert(0 <= offset % size < size) by (nonlinear_arith)
        requires
            size > 0,
    ;
    if len > 0 {
        let rest = segments(disk.block_size, offset + taken, len - taken, start + taken);
        law_segments_partition(disk, offset + taken, len - taken, start + taken);
        model::lemma_block_bounds(disk, offset, disk.block_of(offset));
        assert(offset == (offset / size) * size + offset % size) by (nonlinear_arith)
            requires
                size > 0,
        ;
        assert(disk.in_one_block(offset, taken));
        assert(parts[0].offset == offset && parts[0].start == start && parts[0].len == taken);
        assert(parts.drop_first() =~= rest);
        assert forall|j: int| 0 < j < parts.len() implies parts[j] == rest[j - 1] by {}
        if taken < len {
            let next = (offset / size + 1) as u64;
            assert((offset / size + 1) * size == (offset / size) * size + size)
                by (nonlinear_arith);
            assert(0 <= offset / size < offset / size + 1 <= offset + taken) by (nonlinear_arith)
                requires
                    size > 0,
                    offset >= 0,
                    offset + taken == (offset / size + 1) * size,
            ;
            model::lemma_block_bounds(disk, offset + taken, next);
        }
    }
}

/// The segments of a request are as few as can be: only the first begins within a block, and each
/// but the last ends where a block ends.
pub proof fn law_segments_fewest(disk: RootfsView, offset: int, len: int, j: int)
    requires
        disk.valid(),
        0 <= offset,
        0 <= len,
        offset + len <= disk.logical_size,
        0 <= j < segments(disk.block_size, offset, len, 0).len(),
    ensures
        ({
            let parts = segments(disk.block_size, offset, len, 0);
            &&& parts[0].offset == offset && parts[0].start == 0
            &&& parts.last().offset + parts.last().len == offset + len
            &&& parts[j].offset - parts[j].start == offset
            &&& parts[j].len > 0
            &&& j > 0 ==> parts[j].offset as int % disk.block_size as int == 0
            &&& j < parts.len() - 1 ==> (parts[j].offset + parts[j].len) % disk.block_size as int
                == 0
            &&& j > 0 ==> parts[j - 1].offset + parts[j - 1].len == parts[j].offset
        }),
{
    let parts = segments(disk.block_size, offset, len, 0);
    law_segments_partition(disk, offset, len, 0);
    lemma_aligned(disk, parts[j].offset as int);
    if j > 0 {
        assert(parts[j].start == parts[j - 1].start + parts[j - 1].len);
    }
    if j < parts.len() - 1 {
        assert(parts[j + 1].start == parts[j].start + parts[j].len);
        lemma_aligned(disk, parts[j + 1].offset as int);
    }
}

/// A position where a block begins is a multiple of the block size.
proof fn lemma_aligned(disk: RootfsView, position: int)
    requires
        disk.valid(),
        0 <= position <= u64::MAX,
    ensures
        disk.block_start(disk.block_of(position)) == position ==> position % disk.block_size as int
            == 0,
{
    let size = disk.block_size as int;
    let block = disk.block_of(position);
    assert((block * size) % size == 0) by (nonlinear_arith)
        requires
            size > 0,
    ;
}

} // verus!
