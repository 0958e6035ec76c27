//! The disk as the rest of a virtual machine monitor sees it.
use vstd::prelude::*;

use crate::config::TensorlakeRootfsSpec;
use crate::error::{self, BlockError};
use crate::model::{RootfsView, SECTOR_SIZE};
use crate::open::{self, OpenBase};
use crate::state::{self, TensorlakeRootfsState};

verus! {

/// A rootfs that is put together from a base image, committed layers and a live overlay.
#[derive(Debug)]
pub struct TensorlakeRootfsDisk {
    state: TensorlakeRootfsState,
}

impl View for TensorlakeRootfsDisk {
    type V = RootfsView;

    closed spec fn view(&self) -> RootfsView {
        self.state@
    }
}

/// The block sizes that a disk reports to a guest, in bytes.
#[derive(Clone, Copy, Debug, PartialEq, Eq, Structural)]
pub struct DiskTopology {
    pub logical_block_size: u64,
    pub physical_block_size: u64,
    pub minimum_io_size: u64,
    pub optimal_io_size: u64,
}

/// `n`, or the largest 64-bit number where `n` is larger.
pub open spec fn saturated(n: int) -> u64 {
    if n <= u64::MAX {
        n as u64
    } else {
        u64::MAX
    }
}

/// The sum of `numbers`.
pub open spec fn total(numbers: Seq<u64>) -> int
    decreases numbers.len(),
{
    if numbers.len() == 0 {
        0
    } else {
        total(numbers.drop_last()) + numbers.last()
    }
}

/// The bytes that a file takes on the host of which `st_blocks` units of 512 bytes are allocated.
pub fn allocated_size(st_blocks: u64) -> (r: u64)
    ensures
        r == saturated(st_blocks * 512),
{
    match st_blocks.checked_mul(512) {
        Some(size) => size,
        None => u64::MAX,
    }
}

/// A sum of numbers none of which is negative is not negative.
pub proof fn lemma_total_nonnegative(numbers: Seq<u64>)
    ensures
        total(numbers) >= 0,
    decreases numbers.len(),
{
    if numbers.len() > 0 {
        lemma_total_nonnegative(numbers.drop_last());
    }
}

impl TensorlakeRootfsDisk {
    /// Starts to open the disk that the spec at `spec_path` describes.
    pub fn open(spec_path: &str, spec: TensorlakeRootfsSpec, readonly: bool) -> (r: Result<
        OpenBase,
        BlockError,
    >)
        ensures
            error::reports(r, open::open_fault(spec, spec_path@, readonly)),
            r matches Ok(base) ==> base@ == open::described(spec, spec_path@, readonly),
    {
        open::begin(spec_path, spec, readonly)
    }

    pub(crate) fn new(state: TensorlakeRootfsState) -> (r: TensorlakeRootfsDisk)
        ensures
            r@ == state@,
    {
        TensorlakeRootfsDisk { state }
    }

    /// How the disk serves reads, writes and zeroing.
    pub fn state(&self) -> (r: &TensorlakeRootfsState)
        ensures
            r@ == self@,
    {
        &self.state
    }

    /// The size that a guest sees.
    pub fn logical_size(&self) -> (r: u64)
        ensures
            r == self@.logical_size,
    {
        self.state.logical_size()
    }

    /// The bytes that the disk takes on the host, given the allocated sizes of the base image, of
    /// the live overlay file and of the layer files.
    pub fn physical_size(&self, base: u64, live: u64, layers: &Vec<u64>) -> (r: u64)
        ensures
            r == saturated(base + live + total(layers@)),
    {
        let mut size: u64 = base;
        size = size.saturating_add(live);
        let mut i: usize = 0;
        assert(layers@.take(0) =~= Seq::empty());
        while i < layers.len()
            invariant
                i <= layers.len(),
                size == saturated(base + live + total(layers@.take(i as int))),
            decreases layers.len() - i,
        {
            proof {
                let more = layers@.take(i + 1);
                assert(more.drop_last() =~= layers@.take(i as int));
                lemma_total_nonnegative(layers@.take(i as int));
            }
            size = size.saturating_add(layers[i]);
            i = i + 1;
        }
        assert(layers@.take(i as int) =~= layers@);
        size
    }

    /// The block sizes that the disk reports to a guest.
    pub fn topology(&self) -> (r: DiskTopology)
        ensures
            r == (DiskTopology {
                logical_block_size: SECTOR_SIZE,
                physical_block_size: self@.block_size,
                minimum_io_size: SECTOR_SIZE,
                optimal_io_size: self@.block_size,
            }),
    {
        DiskTopology {
            logical_block_size: SECTOR_SIZE,
            physical_block_size: self.state.block_size(),
            minimum_io_size: SECTOR_SIZE,
            optimal_io_size: self.state.block_size(),
        }
    }

    /// Whether holes can be punched.
    pub fn supports_sparse_operations(&self) -> (r: bool)
        ensures
            r == !self@.readonly,
    {
        !self.state.readonly()
    }

    /// Whether ranges can be zeroed without sending zeroes.
    pub fn supports_zero_flag(&self) -> (r: bool)
        ensures
            r == !self@.readonly,
    {
        !self.state.readonly()
    }

    /// Refuses every size but the present one.
    pub fn resize(&mut self, size: u64) -> (r: Result<(), BlockError>)
        ensures
            error::reports(r, state::resize_fault(old(self)@, size)),
            final(self)@ == old(self)@,
    {
        self.state.ensure_size(size)
    }
}

/// The sizes of files add up: a file counts once, and two lists count as much as they do apart.
pub proof fn law_total_adds_up(a: Seq<u64>, b: Seq<u64>, x: u64)
    ensures
        total(seq![]) == 0,
        total(seq![x]) == x,
        total(a + b) == total(a) + total(b),
    decreases b.len(),
{
    reveal_with_fuel(total, 2);
    assert(seq![x].drop_last() =~= seq![]);
    if b.len() == 0 {
        assert(a + b =~= a);
    } else {
        law_total_adds_up(a, b.drop_last(), x);
        assert((a + b).drop_last() =~= a + b.drop_last());
    }
}

/// A size is reported as it is where it fits in 64 bits, and otherwise as the largest that does.
pub proof fn law_saturated(n: int)
    requires
        n >= 0,
    ensures
        n <= u64::MAX ==> saturated(n) == n,
        n > u64::MAX ==> saturated(n) == u64::MAX,
{
}

} // verus!
