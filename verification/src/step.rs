//! The steps by which one segment of a write or zero request reaches the live overlay.
use vstd::prelude::*;

use crate::model::{self, Committed, LiveView, ReadSource, RootfsView, World};

verus! {

/// One step on the live overlay. The steps of a plan are carried out in order, and the first one
/// that the host fails ends the plan, except that a failed [`LiveStep::PunchHole`] is ignored.
#[derive(Clone, Copy, Debug, PartialEq, Eq, Structural)]
pub enum LiveStep {
    /// Read `len` bytes at `offset` from `source` and write them to the live file at `offset`.
    CopyCommitted { source: ReadSource, offset: u64, len: u64 },
    /// Write `len` zero bytes to the live file at `offset`.
    WriteZeroes { offset: u64, len: u64 },
    /// Write the `len` bytes of the segment to the live file at `offset`.
    WriteData { offset: u64, len: u64 },
    /// Give the space of `len` bytes at `offset` of the live file back to the host.
    PunchHole { offset: u64, len: u64 },
    /// Mark the block as held by the live file.
    MarkDirty { block: u64 },
    /// Take back [`LiveStep::MarkDirty`].
    UnmarkDirty { block: u64 },
    /// Mark the block as zero.
    MarkZero { block: u64 },
    /// Take back [`LiveStep::MarkZero`].
    UnmarkZero { block: u64 },
}

impl LiveStep {
    /// The step works on the live file and its failure ends the plan.
    pub open spec fn can_fail(self) -> bool {
        self is CopyCommitted || self is WriteZeroes || self is WriteData
    }

    /// The marks after the step.
    pub open spec fn marked(self, live: LiveView) -> LiveView {
        match self {
            LiveStep::MarkDirty { block } => LiveView { dirty: live.dirty.insert(block), ..live },
            LiveStep::UnmarkDirty { block } => LiveView { dirty: live.dirty.remove(block), ..live },
            LiveStep::MarkZero { block } => LiveView { zero: live.zero.insert(block), ..live },
            LiveStep::UnmarkZero { block } => LiveView { zero: live.zero.remove(block), ..live },
            _ => live,
        }
    }

    /// Byte `position` of the live file is one that the step may change.
    pub open spec fn touches(self, position: int) -> bool {
        match self {
            LiveStep::CopyCommitted { source, offset, len } => offset <= position < offset + len,
            LiveStep::WriteZeroes { offset, len } => offset <= position < offset + len,
            LiveStep::WriteData { offset, len } => offset <= position < offset + len,
            LiveStep::PunchHole { offset, len } => offset <= position < offset + len,
            _ => false,
        }
    }

    /// The step may lead from `before` to `after` where the host carried it out, or stopped
    /// somewhere in it: the bytes it works on are arbitrary.
    pub open spec fn tears(self, before: World, after: World) -> bool {
        &&& after.live == self.marked(before.live)
        &&& after.file.len() == before.file.len()
        &&& forall|i: int|
            0 <= i < before.file.len() && !self.touches(i) ==> #[trigger] after.file[i]
                == before.file[i]
    }

    /// The step leads from `before` to `after` where the host carried it out on a segment with
    /// the bytes `data`. What a punched hole holds is left open: it is never read.
    pub open spec fn runs(
        self,
        files: Committed,
        data: Seq<u8>,
        before: World,
        after: World,
    ) -> bool {
        &&& self.tears(before, after)
        &&& forall|i: int|
            0 <= i < before.file.len() && self.touches(i) && !(self is PunchHole)
                ==> #[trigger] after.file[i] == match self {
                LiveStep::CopyCommitted { source, offset, len } => model::source_byte(
                    files,
                    before,
                    source,
                    i,
                ),
                LiveStep::WriteData { offset, len } => data[i - offset],
                _ => 0u8,
            }
    }
}

/// The marks after the steps of `plan`.
pub open spec fn marks_after(plan: Seq<LiveStep>, live: LiveView) -> LiveView
    decreases plan.len(),
{
    if plan.len() == 0 {
        live
    } else {
        plan.last().marked(marks_after(plan.drop_last(), live))
    }
}

/// `trace` lists the worlds before, between and after the steps of `plan`, all carried out.
pub open spec fn runs_plan(
    plan: Seq<LiveStep>,
    files: Committed,
    data: Seq<u8>,
    trace: Seq<World>,
) -> bool {
    &&& trace.len() == plan.len() + 1
    &&& forall|k: int|
        0 <= k < plan.len() ==> (#[trigger] plan[k]).runs(files, data, trace[k], trace[k + 1])
}

/// `trace` lists the worlds before, between and after the steps of `plan` up to one that the host
/// failed.
pub open spec fn fails_plan(
    plan: Seq<LiveStep>,
    files: Committed,
    data: Seq<u8>,
    trace: Seq<World>,
) -> bool {
    &&& 2 <= trace.len() <= plan.len() + 1
    &&& forall|k: int|
        0 <= k < trace.len() - 2 ==> (#[trigger] plan[k]).runs(files, data, trace[k], trace[k + 1])
    &&& plan[trace.len() - 2].can_fail()
    &&& plan[trace.len() - 2].tears(trace[trace.len() - 2], trace[trace.len() - 1])
}

/// The steps that write a segment of `len` bytes at `offset`. A block that is not yet in the live
/// file, and of which a part is kept, is first filled from below; a zero block is filled with
/// zeroes.
pub open spec fn write_plan(disk: RootfsView, live: LiveView, offset: u64, len: u64) -> Seq<
    LiveStep,
> {
    let block = disk.block_of(offset as int);
    let start = disk.block_start(block);
    let valid = disk.block_len(block);
    let whole = offset == start && len == valid;
    let from_below = if !whole && !live.dirty.contains(block) && !live.zero.contains(block) {
        seq![
            LiveStep::CopyCommitted {
                source: disk.committed(block),
                offset: start as u64,
                len: valid as u64,
            },
        ]
    } else {
        seq![]
    };
    let from_zero = if live.zero.contains(block) {
        seq![
            LiveStep::UnmarkZero { block },
            LiveStep::WriteZeroes { offset: start as u64, len: valid as u64 },
        ]
    } else {
        seq![]
    };
    from_below + from_zero + seq![
        LiveStep::MarkDirty { block },
        LiveStep::WriteData { offset, len },
    ]
}

/// The steps that zero a segment of `len` bytes at `offset`. A whole block is only marked; of any
/// other the live file gets the zeroes.
pub open spec fn zero_plan(disk: RootfsView, live: LiveView, offset: u64, len: u64) -> Seq<
    LiveStep,
> {
    let block = disk.block_of(offset as int);
    let start = disk.block_start(block);
    let valid = disk.block_len(block);
    if offset == start && len == valid {
        seq![
            LiveStep::UnmarkDirty { block },
            LiveStep::MarkZero { block },
            LiveStep::PunchHole { offset: start as u64, len: valid as u64 },
        ]
    } else {
        let fill = if live.dirty.contains(block) {
            seq![]
        } else if live.zero.contains(block) {
            seq![
                LiveStep::UnmarkZero { block },
                LiveStep::WriteZeroes { offset: start as u64, len: valid as u64 },
            ]
        } else {
            seq![
                LiveStep::CopyCommitted {
                    source: disk.committed(block),
                    offset: start as u64,
                    len: valid as u64,
                },
            ]
        };
        fill + seq![LiveStep::MarkDirty { block }, LiveStep::WriteZeroes { offset, len }]
    }
}

/// The block of a segment holds the segment, ends on the disk, and holds no bytes but those
/// between its ends.
pub proof fn lemma_segment(disk: RootfsView, offset: u64, len: u64)
    requires
        disk.valid(),
        disk.in_one_block(offset as int, len as int),
    ensures
        ({
            let block = disk.block_of(offset as int);
            let start = disk.block_start(block);
            &&& 0 <= start <= offset
            &&& offset + len <= start + disk.block_len(block)
            &&& start + disk.block_len(block) <= disk.logical_size
            &&& disk.block_len(block) <= disk.block_size
            &&& forall|i: int|
                0 <= i < disk.logical_size ==> (#[trigger] disk.block_of(i) == block <==> start <= i
                    < start + disk.block_len(block))
        }),
{
    let block = disk.block_of(offset as int);
    model::lemma_block_bounds(disk, offset as int, block);
    assert forall|i: int| 0 <= i < disk.logical_size implies (#[trigger] disk.block_of(i) == block
        <==> disk.block_start(block) <= i < disk.block_start(block) + disk.block_len(block)) by {
        model::lemma_block_bounds(disk, i, block);
    }
}

} // verus!
