//! What a rootfs disk holds: how the base image, the committed layers and the live overlay add up
//! to the bytes that a guest reads.
use vstd::prelude::*;

use crate::run::{self, BlockRun};

verus! {

/// Bytes per sector, the smallest unit of guest I/O.
pub const SECTOR_SIZE: u64 = 512;

/// Where the bytes of a block come from.
#[derive(Clone, Copy, Debug, PartialEq, Eq, Structural)]
pub enum ReadSource {
    /// The block reads as zeroes; no file is read.
    Zeroes,
    /// The live overlay file.
    Live,
    /// The file of a committed layer, given by its position from the oldest layer on.
    Layer(usize),
    /// The base image.
    Base,
}

/// A committed layer: the blocks that it overrides with its file, and those that it zeroes.
pub struct LayerView {
    pub path: Seq<char>,
    pub dirty_runs: Seq<BlockRun>,
    pub zero_runs: Seq<BlockRun>,
}

impl LayerView {
    pub open spec fn dirties(self, block: u64) -> bool {
        run::runs_cover(self.dirty_runs, block)
    }

    pub open spec fn zeroes(self, block: u64) -> bool {
        run::runs_cover(self.zero_runs, block)
    }
}

/// The blocks that the live overlay overrides.
#[verifier::ext_equal]
pub struct LiveView {
    /// Blocks whose bytes are in the live overlay file.
    pub dirty: Set<u64>,
    /// Blocks that read as zeroes.
    pub zero: Set<u64>,
}

/// A disk as it was opened.
pub struct RootfsView {
    pub logical_size: u64,
    pub block_size: u64,
    pub base_path: Seq<char>,
    pub live_path: Seq<char>,
    pub live_index_path: Option<Seq<char>>,
    /// Oldest layer first.
    pub layers: Seq<LayerView>,
    pub readonly: bool,
}

/// The number of blocks of `block_size` bytes that `logical_size` bytes take.
pub open spec fn block_count(logical_size: u64, block_size: u64) -> int {
    (logical_size + block_size - 1) / block_size as int
}

/// The newest layer that mentions `block` decides: its zero runs first, then its dirty runs. With
/// no such layer the base image does.
pub open spec fn committed_source(layers: Seq<LayerView>, block: u64) -> ReadSource
    decreases layers.len(),
{
    if layers.len() == 0 {
        ReadSource::Base
    } else if layers.last().zeroes(block) {
        ReadSource::Zeroes
    } else if layers.last().dirties(block) {
        ReadSource::Layer((layers.len() - 1) as usize)
    } else {
        committed_source(layers.drop_last(), block)
    }
}

impl RootfsView {
    pub open spec fn valid(self) -> bool {
        &&& self.logical_size > 0
        &&& self.block_size > 0
        &&& self.block_size % SECTOR_SIZE == 0
        &&& self.layers.len() <= usize::MAX
    }

    /// The block that byte `position` lies in.
    pub open spec fn block_of(self, position: int) -> u64 {
        (position / self.block_size as int) as u64
    }

    /// The first byte of `block`.
    pub open spec fn block_start(self, block: u64) -> int {
        block * self.block_size
    }

    /// How many bytes of `block` lie on the disk.
    pub open spec fn block_len(self, block: u64) -> int {
        if self.block_start(block) + self.block_size <= self.logical_size {
            self.block_size as int
        } else {
            self.logical_size - self.block_start(block)
        }
    }

    /// Where `block` is read from below the live overlay.
    pub open spec fn committed(self, block: u64) -> ReadSource {
        committed_source(self.layers, block)
    }

    /// Where `block` is read from.
    pub open spec fn source(self, live: LiveView, block: u64) -> ReadSource {
        if live.zero.contains(block) {
            ReadSource::Zeroes
        } else if live.dirty.contains(block) {
            ReadSource::Live
        } else {
            self.committed(block)
        }
    }

    /// The `len` bytes from `offset` on belong to the disk and lie in a single block.
    pub open spec fn in_one_block(self, offset: int, len: int) -> bool {
        &&& 0 <= offset
        &&& 0 < len
        &&& offset + len <= self.logical_size
        &&& offset + len <= self.block_start(self.block_of(offset)) + self.block_size
    }

    /// The overlay marks only blocks of this disk, and no block both ways.
    pub open spec fn admits(self, live: LiveView) -> bool {
        &&& live.dirty.disjoint(live.zero)
        &&& forall|b: u64| #[trigger]
            live.dirty.contains(b) ==> b < block_count(self.logical_size, self.block_size)
        &&& forall|b: u64| #[trigger]
            live.zero.contains(b) ==> b < block_count(self.logical_size, self.block_size)
    }
}

/// The files below the live overlay. Nothing writes to them.
pub struct Committed {
    pub base: Seq<u8>,
    /// Oldest layer first.
    pub layers: Seq<Seq<u8>>,
}

/// What a disk changes while it runs: the marks in memory and the live overlay file.
#[verifier::ext_equal]
pub struct World {
    pub live: LiveView,
    pub file: Seq<u8>,
}

/// Byte `position` of what `source` gives.
pub open spec fn source_byte(
    files: Committed,
    world: World,
    source: ReadSource,
    position: int,
) -> u8 {
    match source {
        ReadSource::Zeroes => 0,
        ReadSource::Live => world.file[position],
        ReadSource::Layer(i) => files.layers[i as int][position],
        ReadSource::Base => files.base[position],
    }
}

/// What `source` gives for the `len` bytes from `offset` on.
pub open spec fn source_bytes(
    files: Committed,
    world: World,
    source: ReadSource,
    offset: int,
    len: int,
) -> Seq<u8> {
    Seq::new(len as nat, |i: int| source_byte(files, world, source, offset + i))
}

/// Reading the `len` bytes from `offset` on from `source` stays within the file that is read.
pub open spec fn source_covers(
    files: Committed,
    world: World,
    source: ReadSource,
    offset: int,
    len: int,
) -> bool {
    match source {
        ReadSource::Zeroes => true,
        ReadSource::Live => offset + len <= world.file.len(),
        ReadSource::Layer(i) => i < files.layers.len() && offset + len
            <= files.layers[i as int].len(),
        ReadSource::Base => offset + len <= files.base.len(),
    }
}

impl RootfsView {
    /// The files are as long as the disk was promised when it was opened.
    pub open spec fn backed_by(self, files: Committed, world: World) -> bool {
        &&& self.logical_size <= files.base.len()
        &&& self.logical_size <= world.file.len()
        &&& files.layers.len() == self.layers.len()
        &&& forall|i: int, r: int|
            0 <= i < self.layers.len() && 0 <= r < self.layers[i].dirty_runs.len()
                ==> #[trigger] self.layers[i].dirty_runs[r].end() * self.block_size
                <= files.layers[i].len()
    }

    /// Byte `position` of the disk, as a guest sees it.
    pub open spec fn byte(self, files: Committed, world: World, position: int) -> u8 {
        source_byte(files, world, self.source(world.live, self.block_of(position)), position)
    }

    /// The whole disk, as a guest sees it.
    pub open spec fn content(self, files: Committed, world: World) -> Seq<u8> {
        Seq::new(self.logical_size as nat, |i: int| self.byte(files, world, i))
    }
}

/// `bytes` with those from `offset` on replaced by `data`.
pub open spec fn overwritten(bytes: Seq<u8>, offset: int, data: Seq<u8>) -> Seq<u8> {
    Seq::new(
        bytes.len(),
        |i: int|
            if offset <= i < offset + data.len() {
                data[i - offset]
            } else {
                bytes[i]
            },
    )
}

/// `len` zero bytes.
pub open spec fn zero_bytes(len: int) -> Seq<u8> {
    Seq::new(len as nat, |i: int| 0u8)
}

/// Below the live overlay nothing is read from the live file, and only from layers that exist.
pub proof fn lemma_committed_below(layers: Seq<LayerView>, block: u64)
    requires
        layers.len() <= usize::MAX,
    ensures
        !(committed_source(layers, block) is Live),
        committed_source(layers, block) matches ReadSource::Layer(i) ==> i < layers.len()
            && layers[i as int].dirties(block),
    decreases layers.len(),
{
    if layers.len() > 0 {
        lemma_committed_below(layers.drop_last(), block);
    }
}

/// A byte position lies in a block exactly when it lies between the block's ends.
pub proof fn lemma_block_bounds(disk: RootfsView, position: int, block: u64)
    requires
        disk.valid(),
        0 <= position <= u64::MAX,
    ensures
        disk.block_of(position) == block <==> disk.block_start(block) <= position
            < disk.block_start(block) + disk.block_size,
        disk.block_start(disk.block_of(position)) <= position < disk.block_start(
            disk.block_of(position),
        ) + disk.block_size,
        disk.block_of(position) == position / disk.block_size as int,
{
    let size = disk.block_size as int;
    let quotient = position / size;
    assert(0 <= quotient <= position && quotient * size <= position < quotient * size + size)
        by (nonlinear_arith)
        requires
            size > 0,
            position >= 0,
            quotient == position / size,
    ;
    if block < quotient {
        assert(block * size + size <= quotient * size) by (nonlinear_arith)
            requires
                block + 1 <= quotient,
                size > 0,
        ;
    } else if block > quotient {
        assert(quotient * size + size <= block * size) by (nonlinear_arith)
            requires
                quotient + 1 <= block,
                size > 0,
        ;
    }
}

/// Every byte of the disk lies in one of its blocks.
pub proof fn lemma_block_on_disk(disk: RootfsView, position: int)
    requires
        disk.valid(),
        0 <= position < disk.logical_size,
    ensures
        disk.block_of(position) < block_count(disk.logical_size, disk.block_size),
{
    let size = disk.block_size as int;
    let total = disk.logical_size as int;
    lemma_block_bounds(disk, position, disk.block_of(position));
    assert(position / size < (total + size - 1) / size) by (nonlinear_arith)
        requires
            size > 0,
            0 <= position < total,
    ;
}

/// A byte lies in the block that its position falls in when the disk is cut into blocks of equal
/// size, and a block begins at its number times that size.
pub proof fn law_block_positions(disk: RootfsView, position: int, block: u64)
    requires
        disk.valid(),
        0 <= position <= u64::MAX,
    ensures
        disk.block_of(position) * disk.block_size <= position,
        position < disk.block_of(position) * disk.block_size + disk.block_size,
        disk.block_start(block) == block * disk.block_size,
        block * disk.block_size <= position < block * disk.block_size + disk.block_size
            ==> disk.block_of(position) == block,
{
    lemma_block_bounds(disk, position, block);
}

/// A block of the disk holds as many bytes as lie between its first and the next block, or the end
/// of the disk where that comes first.
pub proof fn law_block_length(disk: RootfsView, block: u64)
    requires
        block * disk.block_size <= disk.logical_size,
    ensures
        disk.block_len(block) <= disk.block_size,
        block * disk.block_size + disk.block_len(block) <= disk.logical_size,
        disk.block_len(block) == disk.block_size || block * disk.block_size + disk.block_len(block)
            == disk.logical_size,
{
}

/// The number of blocks is the least that holds the whole disk.
pub proof fn law_block_count_least(logical_size: u64, block_size: u64)
    requires
        block_size > 0,
    ensures
        block_count(logical_size, block_size) * block_size >= logical_size,
        logical_size > 0 ==> (block_count(logical_size, block_size) - 1) * block_size
            < logical_size,
        logical_size == 0 ==> block_count(logical_size, block_size) == 0,
{
    let count = block_count(logical_size, block_size);
    assert(count * block_size >= logical_size && (count - 1) * block_size < logical_size)
        by (nonlinear_arith)
        requires
            block_size > 0,
            count == (logical_size + block_size - 1) / block_size as int,
    ;
    if logical_size == 0 {
        assert((block_size - 1) / block_size as int == 0) by (nonlinear_arith)
            requires
                block_size > 0,
        ;
    }
}

/// A disk makes sense exactly when it is not empty and its blocks are one or more whole sectors of
/// 512 bytes.
pub proof fn law_valid(disk: RootfsView)
    requires
        disk.layers.len() <= usize::MAX,
    ensures
        disk.valid() <==> disk.logical_size > 0 && disk.block_size > 0 && disk.block_size % 512
            == 0,
{
}

/// A disk admits marks exactly when each is on a block that begins on the disk, and no block is
/// marked both ways.
pub proof fn law_admitted_marks(disk: RootfsView, live: LiveView)
    requires
        disk.valid(),
    ensures
        disk.admits(live) <==> {
            &&& forall|b: u64|
                #[trigger] live.dirty.contains(b) ==> b * disk.block_size < disk.logical_size
            &&& forall|b: u64|
                #[trigger] live.zero.contains(b) ==> b * disk.block_size < disk.logical_size
            &&& forall|b: u64| !(#[trigger] live.dirty.contains(b) && live.zero.contains(b))
        },
{
    if disk.admits(live) {
        assert forall|b: u64| #[trigger] live.dirty.contains(b) implies b * disk.block_size
            < disk.logical_size by {
            lemma_block_begins_on_disk(disk, b);
        }
        assert forall|b: u64| #[trigger] live.zero.contains(b) implies b * disk.block_size
            < disk.logical_size by {
            lemma_block_begins_on_disk(disk, b);
        }
    } else {
        assert forall|b: u64| #[trigger]
            live.dirty.contains(b) && b * disk.block_size < disk.logical_size implies b
            < block_count(disk.logical_size, disk.block_size) by {
            lemma_block_begins_on_disk(disk, b);
        }
        assert forall|b: u64| #[trigger]
            live.zero.contains(b) && b * disk.block_size < disk.logical_size implies b
            < block_count(disk.logical_size, disk.block_size) by {
            lemma_block_begins_on_disk(disk, b);
        }
    }
}

/// The blocks of a disk are those that begin on it.
proof fn lemma_block_begins_on_disk(disk: RootfsView, block: u64)
    requires
        disk.valid(),
    ensures
        block < block_count(disk.logical_size, disk.block_size) <==> block * disk.block_size
            < disk.logical_size,
{
    let count = block_count(disk.logical_size, disk.block_size);
    let size = disk.block_size as int;
    law_block_count_least(disk.logical_size, disk.block_size);
    if block < count {
        assert(block * size <= (count - 1) * size) by (nonlinear_arith)
            requires
                block <= count - 1,
                size > 0,
        ;
    } else {
        assert(block * size >= count * size) by (nonlinear_arith)
            requires
                block >= count,
                size > 0,
        ;
    }
}

/// A layer overrides, or zeroes, the blocks of its dirty, or zero, runs, and no others.
pub proof fn law_layer_blocks(layer: LayerView, block: u64)
    ensures
        layer.dirties(block) <==> exists|i: int|
            0 <= i < layer.dirty_runs.len() && (#[trigger] layer.dirty_runs[i]).start_block <= block
                && block - layer.dirty_runs[i].start_block < layer.dirty_runs[i].block_count
                && layer.dirty_runs[i].start_block + layer.dirty_runs[i].block_count <= u64::MAX,
        layer.zeroes(block) <==> exists|i: int|
            0 <= i < layer.zero_runs.len() && (#[trigger] layer.zero_runs[i]).start_block <= block
                && block - layer.zero_runs[i].start_block < layer.zero_runs[i].block_count
                && layer.zero_runs[i].start_block + layer.zero_runs[i].block_count <= u64::MAX,
{
    run::law_runs_blocks(layer.dirty_runs, block);
    run::law_runs_blocks(layer.zero_runs, block);
}

/// A block that no committed layer mentions is read from the base image, however many layers there
/// are.
pub proof fn law_unmentioned_block_is_base(layers: Seq<LayerView>, block: u64)
    requires
        forall|j: int|
            0 <= j < layers.len() ==> !(#[trigger] layers[j]).zeroes(block) && !layers[j].dirties(
                block,
            ),
    ensures
        committed_source(layers, block) == ReadSource::Base,
    decreases layers.len(),
{
    if layers.len() > 0 {
        let older = layers.drop_last();
        assert forall|j: int| 0 <= j < older.len() implies !(#[trigger] older[j]).zeroes(block)
            && !older[j].dirties(block) by {
            assert(older[j] == layers[j]);
        }
        assert(!layers[layers.len() - 1].zeroes(block));
        law_unmentioned_block_is_base(older, block);
    }
}

/// A layer that does not mention a block does not change where it is read from.
pub proof fn law_silent_layer_changes_nothing(layers: Seq<LayerView>, layer: LayerView, block: u64)
    requires
        !layer.zeroes(block),
        !layer.dirties(block),
    ensures
        committed_source(layers.push(layer), block) == committed_source(layers, block),
{
    assert(layers.push(layer).drop_last() =~= layers);
}

/// What a guest reads at a position: zero where the block is marked zero; else what the live file
/// holds where it is marked dirty; else what the newest layer that mentions the block gives, which
/// is zero where that layer zeroes it and what its file holds where it does not; else what the
/// base image holds.
pub proof fn law_byte_through_stack(
    disk: RootfsView,
    files: Committed,
    world: World,
    position: int,
    block: u64,
    i: int,
)
    requires
        disk.valid(),
        0 <= position < disk.logical_size,
        block * disk.block_size <= position < block * disk.block_size + disk.block_size,
        -1 <= i < disk.layers.len(),
        i >= 0 ==> disk.layers[i].zeroes(block) || disk.layers[i].dirties(block),
        forall|j: int|
            i < j < disk.layers.len() ==> !(#[trigger] disk.layers[j]).zeroes(block)
                && !disk.layers[j].dirties(block),
    ensures
        disk.content(files, world).len() == disk.logical_size,
        disk.content(files, world)[position] == if world.live.zero.contains(block) {
            0u8
        } else if world.live.dirty.contains(block) {
            world.file[position]
        } else if i < 0 {
            files.base[position]
        } else if disk.layers[i].zeroes(block) {
            0u8
        } else {
            files.layers[i][position]
        },
{
    law_block_positions(disk, position, block);
    if i < 0 {
        law_unmentioned_block_is_base(disk.layers, block);
    } else {
        lemma_newest_decides(disk.layers, block, i);
    }
}

/// The newest layer that mentions a block decides what it holds.
pub proof fn lemma_newest_decides(layers: Seq<LayerView>, block: u64, i: int)
    requires
        layers.len() <= usize::MAX,
        0 <= i < layers.len(),
        layers[i].zeroes(block) || layers[i].dirties(block),
        forall|j: int|
            i < j < layers.len() ==> !(#[trigger] layers[j]).zeroes(block) && !layers[j].dirties(
                block,
            ),
    ensures
        layers[i].zeroes(block) ==> committed_source(layers, block) == ReadSource::Zeroes,
        !layers[i].zeroes(block) ==> committed_source(layers, block) == ReadSource::Layer(
            i as usize,
        ),
    decreases layers.len(),
{
    if i < layers.len() - 1 {
        let older = layers.drop_last();
        assert forall|j: int| i < j < older.len() implies !(#[trigger] older[j]).zeroes(block)
            && !older[j].dirties(block) by {
            assert(older[j] == layers[j]);
        }
        lemma_newest_decides(older, block, i);
        assert(!layers[layers.len() - 1].zeroes(block));
    }
}

/// A segment lies in one block exactly when it is not empty, ends on the disk, and its first and
/// last byte fall in the same block.
pub proof fn law_in_one_block(disk: RootfsView, offset: int, len: int)
    requires
        disk.valid(),
        0 <= offset <= u64::MAX,
        0 < len,
        offset + len <= disk.logical_size,
    ensures
        disk.in_one_block(offset, len) <==> disk.block_of(offset) == disk.block_of(
            offset + len - 1,
        ),
{
    lemma_block_bounds(disk, offset + len - 1, disk.block_of(offset));
    lemma_block_bounds(disk, offset, disk.block_of(offset));
}

/// Bytes that are overwritten are those of the data from `offset` on; there are as many as before,
/// and the others stay.
pub proof fn law_overwritten(bytes: Seq<u8>, offset: int, data: Seq<u8>, i: int)
    requires
        0 <= i < bytes.len(),
    ensures
        overwritten(bytes, offset, data).len() == bytes.len(),
        offset <= i && i - offset < data.len() ==> overwritten(bytes, offset, data)[i] == data[i
            - offset],
        i < offset || i - offset >= data.len() ==> overwritten(bytes, offset, data)[i] == bytes[i],
{
}

/// Zero bytes are zero.
pub proof fn law_zero_bytes(len: int, i: int)
    requires
        0 <= i < len,
    ensures
        zero_bytes(len).len() == len,
        zero_bytes(len)[i] == 0,
{
}

/// What a source gives is what its file holds at the same positions, and zeroes where there is no
/// file.
pub proof fn law_source_bytes(
    files: Committed,
    world: World,
    source: ReadSource,
    offset: int,
    len: int,
    i: int,
)
    requires
        0 <= i < len,
    ensures
        source_bytes(files, world, source, offset, len).len() == len,
        source_bytes(files, world, source, offset, len)[i] == match source {
            ReadSource::Zeroes => 0u8,
            ReadSource::Live => world.file[offset + i],
            ReadSource::Layer(layer) => files.layers[layer as int][offset + i],
            ReadSource::Base => files.base[offset + i],
        },
{
}

} // verus!
