//! What requests do to the content of a disk.
use vstd::prelude::*;

use crate::model::{self, Committed, LiveView, RootfsView, World};
use crate::overlay::{self, LiveOverlayIndex};
use crate::segment::{self, Segment};
use crate::step::{self, LiveStep};

verus! {

/// A segment that is written replaces exactly its own bytes of the disk.
pub proof fn law_write_segment(
    disk: RootfsView,
    files: Committed,
    offset: u64,
    data: Seq<u8>,
    trace: Seq<World>,
)
    requires
        disk.valid(),
        disk.admits(trace.first().live),
        disk.backed_by(files, trace.first()),
        disk.in_one_block(offset as int, data.len() as int),
        step::runs_plan(
            step::write_plan(disk, trace.first().live, offset, data.len() as u64),
            files,
            data,
            trace,
        ),
    ensures
        disk.content(files, trace.last()) == model::overwritten(
            disk.content(files, trace.first()),
            offset as int,
            data,
        ),
        disk.admits(trace.last().live),
        disk.backed_by(files, trace.last()),
{
    let len = data.len() as u64;
    let first = trace.first();
    let last = trace.last();
    let block = disk.block_of(offset as int);
    let start = disk.block_start(block);
    let plan = step::write_plan(disk, first.live, offset, len);
    step::lemma_segment(disk, offset, len);
    model::lemma_block_on_disk(disk, offset as int);
    let n = plan.len() as int;
    assert(plan[n - 2] == LiveStep::MarkDirty { block });
    assert(plan[n - 1] == LiveStep::WriteData { offset, len });
    if n == 3 {
        assert(plan[0] is CopyCommitted);
    } else if n == 4 {
        assert(plan[0] == LiveStep::UnmarkZero { block });
        assert(plan[1] is WriteZeroes);
    }
    assert(last.live.dirty =~= first.live.dirty.insert(block));
    assert(last.live.zero =~= first.live.zero.remove(block));
    assert forall|i: int| 0 <= i < disk.logical_size implies disk.byte(files, last, i)
        == #[trigger] model::overwritten(disk.content(files, first), offset as int, data)[i] by {
        assert(disk.block_of(i) == block <==> start <= i < start + disk.block_len(block));
        assert(trace[n].file[i] == trace[n - 1].file[i] || offset <= i < offset + len);
    }
    assert(disk.content(files, last) =~= model::overwritten(
        disk.content(files, first),
        offset as int,
        data,
    ));
}

/// A segment that is zeroed turns exactly its own bytes of the disk into zeroes, whatever the
/// host leaves in the space that was given back.
pub proof fn law_zero_segment(
    disk: RootfsView,
    files: Committed,
    offset: u64,
    len: u64,
    data: Seq<u8>,
    trace: Seq<World>,
)
    requires
        disk.valid(),
        disk.admits(trace.first().live),
        disk.backed_by(files, trace.first()),
        disk.in_one_block(offset as int, len as int),
        step::runs_plan(
            step::zero_plan(disk, trace.first().live, offset, len),
            files,
            data,
            trace,
        ),
    ensures
        disk.content(files, trace.last()) == model::overwritten(
            disk.content(files, trace.first()),
            offset as int,
            model::zero_bytes(len as int),
        ),
        disk.admits(trace.last().live),
        disk.backed_by(files, trace.last()),
{
    let first = trace.first();
    let last = trace.last();
    let block = disk.block_of(offset as int);
    let start = disk.block_start(block);
    let plan = step::zero_plan(disk, first.live, offset, len);
    step::lemma_segment(disk, offset, len);
    model::lemma_block_on_disk(disk, offset as int);
    let n = plan.len() as int;
    let whole = offset == start && len == disk.block_len(block);
    if whole {
        assert(plan[0] == LiveStep::UnmarkDirty { block });
        assert(plan[1] == LiveStep::MarkZero { block });
        assert(plan[2] is PunchHole);
        assert(last.live.dirty =~= first.live.dirty.remove(block));
        assert(last.live.zero =~= first.live.zero.insert(block));
    } else {
        assert(plan[n - 2] == LiveStep::MarkDirty { block });
        assert(plan[n - 1] == LiveStep::WriteZeroes { offset, len });
        if n == 3 {
            assert(plan[0] is CopyCommitted);
        } else if n == 4 {
            assert(plan[0] == LiveStep::UnmarkZero { block });
            assert(plan[1] is WriteZeroes);
        }
        assert(last.live.dirty =~= first.live.dirty.insert(block));
        assert(last.live.zero =~= first.live.zero.remove(block));
    }
    let zeroes = model::zero_bytes(len as int);
    assert forall|i: int| 0 <= i < disk.logical_size implies disk.byte(files, last, i)
        == #[trigger] model::overwritten(disk.content(files, first), offset as int, zeroes)[i] by {
        assert(disk.block_of(i) == block <==> start <= i < start + disk.block_len(block));
        assert(trace[n].file[i] == trace[n - 1].file[i] || offset <= i < offset + len);
    }
    assert(disk.content(files, last) =~= model::overwritten(
        disk.content(files, first),
        offset as int,
        zeroes,
    ));
}

/// The host failed to fill the block of `offset` with zeroes, after its mark as zero was taken
/// back: the block reads again as it does below the live overlay.
pub open spec fn uncovers(disk: RootfsView, offset: int, trace: Seq<World>) -> bool {
    trace.first().live.zero.contains(disk.block_of(offset)) && trace.len() == 3
}

/// Byte `position` changes because its block is uncovered: it was zero, and is not below the live
/// overlay.
pub open spec fn exposed(
    disk: RootfsView,
    files: Committed,
    offset: int,
    trace: Seq<World>,
    position: int,
) -> bool {
    let block = disk.block_of(offset);
    &&& uncovers(disk, offset, trace)
    &&& disk.block_of(position) == block
    &&& model::source_byte(files, trace.first(), disk.committed(block), position) != 0
}

/// The steps of a write or of a zeroing of a segment.
pub open spec fn segment_plan(
    disk: RootfsView,
    live: LiveView,
    offset: u64,
    len: u64,
    zeroing: bool,
) -> Seq<LiveStep> {
    if zeroing {
        step::zero_plan(disk, live, offset, len)
    } else {
        step::write_plan(disk, live, offset, len)
    }
}

/// The plans that can fail: what their steps are, and which of them failed.
proof fn lemma_failing_plan(
    disk: RootfsView,
    files: Committed,
    offset: u64,
    len: u64,
    data: Seq<u8>,
    zeroing: bool,
    trace: Seq<World>,
)
    requires
        disk.valid(),
        disk.in_one_block(offset as int, len as int),
        step::fails_plan(
            segment_plan(disk, trace.first().live, offset, len, zeroing),
            files,
            data,
            trace,
        ),
    ensures
        ({
            let live = trace.first().live;
            let block = disk.block_of(offset as int);
            let plan = segment_plan(disk, live, offset, len, zeroing);
            let n = plan.len() as int;
            let failed = trace.len() - 2;
            &&& 2 <= n <= 4
            &&& plan[n - 2] == LiveStep::MarkDirty { block }
            &&& plan[n - 1] == if zeroing {
                LiveStep::WriteZeroes { offset, len }
            } else {
                LiveStep::WriteData { offset, len }
            }
            &&& n == 3 ==> plan[0] == LiveStep::CopyCommitted {
                source: disk.committed(block),
                offset: disk.block_start(block) as u64,
                len: disk.block_len(block) as u64,
            } && !live.dirty.contains(block) && !live.zero.contains(block)
            &&& n == 4 <==> live.zero.contains(block) && !(zeroing && live.dirty.contains(block))
            &&& n == 4 ==> plan[0] == LiveStep::UnmarkZero { block }
            &&& n == 4 ==> plan[1] == LiveStep::WriteZeroes {
                offset: disk.block_start(block) as u64,
                len: disk.block_len(block) as u64,
            }
            &&& failed == n - 1 || (failed == 0 && n == 3) || (failed == 1 && n == 4)
        }),
{
    let block = disk.block_of(offset as int);
    let plan = segment_plan(disk, trace.first().live, offset, len, zeroing);
    step::lemma_segment(disk, offset, len);
    if zeroing && offset == disk.block_start(block) && len == disk.block_len(block) {
        assert(plan[0] == LiveStep::UnmarkDirty { block });
        assert(plan[1] == LiveStep::MarkZero { block });
        assert(plan[2] is PunchHole);
        assert(false);
    }
    let n = plan.len() as int;
    assert(plan[n - 2] == LiveStep::MarkDirty { block });
}

/// A write or a zeroing that the host fails midway leaves the marks disjoint and on the disk, and
/// the files as long as they were, whatever the block held.
pub proof fn law_failed_segment_keeps_marks(
    disk: RootfsView,
    files: Committed,
    offset: u64,
    len: u64,
    data: Seq<u8>,
    zeroing: bool,
    trace: Seq<World>,
)
    requires
        disk.valid(),
        disk.admits(trace.first().live),
        disk.backed_by(files, trace.first()),
        disk.in_one_block(offset as int, len as int),
        step::fails_plan(
            segment_plan(disk, trace.first().live, offset, len, zeroing),
            files,
            data,
            trace,
        ),
    ensures
        disk.admits(trace.last().live),
        disk.backed_by(files, trace.last()),
{
    lemma_failing_plan(disk, files, offset, len, data, zeroing, trace);
    step::lemma_segment(disk, offset, len);
    model::lemma_block_on_disk(disk, offset as int);
}

/// A byte outside a segment that failed, or one of an uncovered block.
proof fn lemma_failed_byte(
    disk: RootfsView,
    files: Committed,
    offset: u64,
    len: u64,
    data: Seq<u8>,
    zeroing: bool,
    trace: Seq<World>,
    position: int,
)
    requires
        disk.valid(),
        disk.admits(trace.first().live),
        disk.backed_by(files, trace.first()),
        disk.in_one_block(offset as int, len as int),
        step::fails_plan(
            segment_plan(disk, trace.first().live, offset, len, zeroing),
            files,
            data,
            trace,
        ),
        0 <= position < disk.logical_size,
    ensures
        !(offset <= position < offset + len) && !exposed(
            disk,
            files,
            offset as int,
            trace,
            position,
        ) ==> disk.byte(files, trace.last(), position) == disk.byte(files, trace.first(), position),
        uncovers(disk, offset as int, trace) && disk.block_of(position) == disk.block_of(
            offset as int,
        ) ==> disk.byte(files, trace.last(), position) == model::source_byte(
            files,
            trace.first(),
            disk.committed(disk.block_of(position)),
            position,
        ),
{
    let last = trace.last();
    let block = disk.block_of(offset as int);
    let plan = segment_plan(disk, trace.first().live, offset, len, zeroing);
    let n = plan.len() as int;
    let failed = trace.len() - 2;
    lemma_failing_plan(disk, files, offset, len, data, zeroing, trace);
    step::lemma_segment(disk, offset, len);
    model::lemma_committed_below(disk.layers, block);
    assert(disk.block_of(position) == block <==> disk.block_start(block) <= position
        < disk.block_start(block) + disk.block_len(block));
    if failed == n - 1 && !(offset <= position < offset + len) {
        assert(last.file[position] == trace[n - 1].file[position]);
        assert(trace[n - 1].file[position] == trace[n - 2].file[position]);
        if n == 3 {
            assert(plan[0].runs(files, data, trace[0], trace[1]));
        }
    }
}

/// A write or a zeroing that the host fails midway leaves every byte outside the segment as it
/// was, but for those that are exposed. An uncovered block reads as it does below the live
/// overlay.
pub proof fn law_failed_segment(
    disk: RootfsView,
    files: Committed,
    offset: u64,
    len: u64,
    data: Seq<u8>,
    zeroing: bool,
    trace: Seq<World>,
)
    requires
        disk.valid(),
        disk.admits(trace.first().live),
        disk.backed_by(files, trace.first()),
        disk.in_one_block(offset as int, len as int),
        step::fails_plan(
            segment_plan(disk, trace.first().live, offset, len, zeroing),
            files,
            data,
            trace,
        ),
    ensures
        forall|i: int|
            0 <= i < disk.logical_size && !(offset <= i < offset + len) && !exposed(
                disk,
                files,
                offset as int,
                trace,
                i,
            ) ==> #[trigger] disk.byte(files, trace.last(), i) == disk.byte(
                files,
                trace.first(),
                i,
            ),
        uncovers(disk, offset as int, trace) ==> forall|i: int|
            0 <= i < disk.logical_size && disk.block_of(i) == disk.block_of(offset as int)
                ==> #[trigger] disk.byte(files, trace.last(), i) == model::source_byte(
                files,
                trace.first(),
                disk.committed(disk.block_of(i)),
                i,
            ),
{
    assert forall|i: int| 0 <= i < disk.logical_size implies {
        &&& !(offset <= i < offset + len) && !exposed(disk, files, offset as int, trace, i)
            ==> #[trigger] disk.byte(files, trace.last(), i) == disk.byte(files, trace.first(), i)
        &&& uncovers(disk, offset as int, trace) && disk.block_of(i) == disk.block_of(offset as int)
            ==> disk.byte(files, trace.last(), i) == model::source_byte(
            files,
            trace.first(),
            disk.committed(disk.block_of(i)),
            i,
        )
    } by {
        lemma_failed_byte(disk, files, offset, len, data, zeroing, trace, i);
    }
}

/// The host carried out the write of `part` of a request with the bytes `data`.
pub open spec fn part_written(
    disk: RootfsView,
    files: Committed,
    part: Segment,
    data: Seq<u8>,
    before: World,
    after: World,
) -> bool {
    exists|trace: Seq<World>|
        {
            &&& #[trigger] step::runs_plan(
                step::write_plan(disk, before.live, part.offset, part.len),
                files,
                data.subrange(part.start as int, part.start + part.len),
                trace,
            )
            &&& trace.first() == before
            &&& trace.last() == after
        }
}

/// The host carried out the zeroing of `part` of a request.
pub open spec fn part_zeroed(
    disk: RootfsView,
    files: Committed,
    part: Segment,
    before: World,
    after: World,
) -> bool {
    exists|trace: Seq<World>|
        {
            &&& #[trigger] step::runs_plan(
                step::zero_plan(disk, before.live, part.offset, part.len),
                files,
                seq![],
                trace,
            )
            &&& trace.first() == before
            &&& trace.last() == after
        }
}

/// `worlds` lists the worlds before, between and after the parts of a write of `data` at `offset`.
pub open spec fn writes(
    disk: RootfsView,
    files: Committed,
    offset: int,
    data: Seq<u8>,
    worlds: Seq<World>,
) -> bool {
    let parts = segment::segments(disk.block_size, offset, data.len() as int, 0);
    &&& worlds.len() == parts.len() + 1
    &&& forall|j: int|
        0 <= j < parts.len() ==> #[trigger] part_written(
            disk,
            files,
            parts[j],
            data,
            worlds[j],
            worlds[j + 1],
        )
}

/// `worlds` lists the worlds before, between and after the parts of a zeroing of `len` bytes at
/// `offset`.
pub open spec fn zeroes(
    disk: RootfsView,
    files: Committed,
    offset: int,
    len: int,
    worlds: Seq<World>,
) -> bool {
    let parts = segment::segments(disk.block_size, offset, len, 0);
    &&& worlds.len() == parts.len() + 1
    &&& forall|j: int|
        0 <= j < parts.len() ==> #[trigger] part_zeroed(
            disk,
            files,
            parts[j],
            worlds[j],
            worlds[j + 1],
        )
}

/// `buffer` was filled part by part from where the disk reads each part.
pub open spec fn reads(
    disk: RootfsView,
    files: Committed,
    world: World,
    offset: int,
    buffer: Seq<u8>,
) -> bool {
    let parts = segment::segments(disk.block_size, offset, buffer.len() as int, 0);
    forall|j: int|
        0 <= j < parts.len() ==> buffer.subrange(
            (#[trigger] parts[j]).start as int,
            parts[j].start + parts[j].len,
        ) == model::source_bytes(
            files,
            world,
            disk.source(world.live, disk.block_of(parts[j].offset as int)),
            parts[j].offset as int,
            parts[j].len as int,
        )
}

/// Replacing a prefix of `data`, and then its next `len` bytes, replaces the longer prefix.
proof fn lemma_overwritten_further(
    bytes: Seq<u8>,
    offset: int,
    data: Seq<u8>,
    start: int,
    len: int,
)
    requires
        0 <= offset,
        0 <= start,
        0 <= len,
        start + len <= data.len(),
    ensures
        model::overwritten(
            model::overwritten(bytes, offset, data.take(start)),
            offset + start,
            data.subrange(start, start + len),
        ) == model::overwritten(bytes, offset, data.take(start + len)),
{
    assert(model::overwritten(
        model::overwritten(bytes, offset, data.take(start)),
        offset + start,
        data.subrange(start, start + len),
    ) =~= model::overwritten(bytes, offset, data.take(start + len)));
}

/// The content after the first `k` parts of a write: their bytes are replaced, and no others.
proof fn lemma_write_progress(
    disk: RootfsView,
    files: Committed,
    offset: int,
    data: Seq<u8>,
    worlds: Seq<World>,
    k: int,
)
    requires
        disk.valid(),
        disk.admits(worlds.first().live),
        disk.backed_by(files, worlds.first()),
        0 <= offset,
        offset + data.len() <= disk.logical_size,
        0 <= k < worlds.len(),
        worlds.len() <= segment::segments(disk.block_size, offset, data.len() as int, 0).len() + 1,
        forall|j: int|
            0 <= j < k ==> #[trigger] part_written(
                disk,
                files,
                segment::segments(disk.block_size, offset, data.len() as int, 0)[j],
                data,
                worlds[j],
                worlds[j + 1],
            ),
    ensures
        disk.admits(worlds[k].live),
        disk.backed_by(files, worlds[k]),
        ({
            let parts = segment::segments(disk.block_size, offset, data.len() as int, 0);
            let done = if k < parts.len() {
                parts[k].start as int
            } else {
                data.len() as int
            };
            disk.content(files, worlds[k]) == model::overwritten(
                disk.content(files, worlds.first()),
                offset,
                data.take(done),
            )
        }),
    decreases k,
{
    let parts = segment::segments(disk.block_size, offset, data.len() as int, 0);
    segment::law_segments_partition(disk, offset, data.len() as int, 0);
    let origin = disk.content(files, worlds.first());
    if k == 0 {
        assert(disk.content(files, worlds[0]) =~= model::overwritten(origin, offset, data.take(0)));
    } else {
        lemma_write_progress(disk, files, offset, data, worlds, k - 1);
        let part = parts[k - 1];
        let before = worlds[k - 1];
        let after = worlds[k];
        let bytes = data.subrange(part.start as int, part.start + part.len);
        assert(part_written(disk, files, parts[k - 1], data, worlds[k - 1], worlds[k - 1 + 1]));
        let trace = choose|trace: Seq<World>|
            {
                &&& #[trigger] step::runs_plan(
                    step::write_plan(disk, before.live, part.offset, part.len),
                    files,
                    bytes,
                    trace,
                )
                &&& trace.first() == before
                &&& trace.last() == after
            };
        law_write_segment(disk, files, part.offset, bytes, trace);
        lemma_overwritten_further(origin, offset, data, part.start as int, part.len as int);
        assert(k < parts.len() ==> parts[k].start == part.start + part.len);
    }
}

/// A write that completes replaces exactly the bytes it was asked to.
pub proof fn law_write(
    disk: RootfsView,
    files: Committed,
    offset: int,
    data: Seq<u8>,
    worlds: Seq<World>,
)
    requires
        disk.valid(),
        disk.admits(worlds.first().live),
        disk.backed_by(files, worlds.first()),
        0 <= offset,
        offset + data.len() <= disk.logical_size,
        writes(disk, files, offset, data, worlds),
    ensures
        disk.content(files, worlds.last()) == model::overwritten(
            disk.content(files, worlds.first()),
            offset,
            data,
        ),
        disk.admits(worlds.last().live),
        disk.backed_by(files, worlds.last()),
{
    lemma_write_progress(disk, files, offset, data, worlds, worlds.len() - 1);
    assert(data.take(data.len() as int) =~= data);
}

/// A write that the host fails in one of its parts keeps the marks disjoint and on the disk. The
/// bytes of the parts before it hold what was written; those of the parts after it, and those
/// outside the request, are as they were, but for those that are exposed.
pub proof fn law_failed_write(
    disk: RootfsView,
    files: Committed,
    offset: int,
    data: Seq<u8>,
    worlds: Seq<World>,
    trace: Seq<World>,
)
    requires
        disk.valid(),
        disk.admits(worlds.first().live),
        disk.backed_by(files, worlds.first()),
        0 <= offset,
        offset + data.len() <= disk.logical_size,
        0 < worlds.len() <= segment::segments(disk.block_size, offset, data.len() as int, 0).len(),
        forall|j: int|
            0 <= j < worlds.len() - 1 ==> #[trigger] part_written(
                disk,
                files,
                segment::segments(disk.block_size, offset, data.len() as int, 0)[j],
                data,
                worlds[j],
                worlds[j + 1],
            ),
        trace.first() == worlds.last(),
        ({
            let parts = segment::segments(disk.block_size, offset, data.len() as int, 0);
            let part = parts[worlds.len() - 1];
            step::fails_plan(
                step::write_plan(disk, worlds.last().live, part.offset, part.len),
                files,
                data.subrange(part.start as int, part.start + part.len),
                trace,
            )
        }),
    ensures
        disk.admits(trace.last().live),
        disk.backed_by(files, trace.last()),
        ({
            let parts = segment::segments(disk.block_size, offset, data.len() as int, 0);
            let part = parts[worlds.len() - 1];
            &&& forall|i: int|
                offset <= i < part.offset ==> #[trigger] disk.byte(files, trace.last(), i) == data[i
                    - offset]
            &&& forall|i: int|
                0 <= i < disk.logical_size && !(offset <= i < part.offset + part.len) && !exposed(
                    disk,
                    files,
                    part.offset as int,
                    trace,
                    i,
                ) ==> #[trigger] disk.byte(files, trace.last(), i) == disk.byte(
                    files,
                    worlds.first(),
                    i,
                )
        }),
{
    let parts = segment::segments(disk.block_size, offset, data.len() as int, 0);
    let k = worlds.len() - 1;
    let part = parts[k];
    let bytes: Seq<u8> = data.subrange(part.start as int, part.start + part.len);
    segment::law_segments_partition(disk, offset, data.len() as int, 0);
    lemma_write_progress(disk, files, offset, data, worlds, k);
    law_failed_segment_keeps_marks(disk, files, part.offset, part.len, bytes, false, trace);
    law_failed_segment(disk, files, part.offset, part.len, bytes, false, trace);
    let before = disk.content(files, worlds[k]);
    assert forall|i: int| offset <= i < part.offset implies #[trigger] disk.byte(
        files,
        trace.last(),
        i,
    ) == data[i - offset] by {
        model::lemma_block_bounds(disk, i, disk.block_of(part.offset as int));
        assert(before[i] == disk.byte(files, worlds[k], i));
    }
    assert forall|i: int|
        0 <= i < disk.logical_size && !(offset <= i < part.offset + part.len) && !exposed(
            disk,
            files,
            part.offset as int,
            trace,
            i,
        ) implies #[trigger] disk.byte(files, trace.last(), i) == disk.byte(
        files,
        worlds.first(),
        i,
    ) by {
        assert(before[i] == disk.byte(files, worlds[k], i));
        assert(disk.content(files, worlds.first())[i] == disk.byte(files, worlds.first(), i));
    }
}

/// The content after the first `k` parts of a zeroing: their bytes are zero, the others unchanged.
proof fn lemma_zero_progress(
    disk: RootfsView,
    files: Committed,
    offset: int,
    len: int,
    worlds: Seq<World>,
    k: int,
)
    requires
        disk.valid(),
        disk.admits(worlds.first().live),
        disk.backed_by(files, worlds.first()),
        0 <= offset,
        0 <= len,
        offset + len <= disk.logical_size,
        0 <= k < worlds.len(),
        worlds.len() <= segment::segments(disk.block_size, offset, len, 0).len() + 1,
        forall|j: int|
            0 <= j < k ==> #[trigger] part_zeroed(
                disk,
                files,
                segment::segments(disk.block_size, offset, len, 0)[j],
                worlds[j],
                worlds[j + 1],
            ),
    ensures
        disk.admits(worlds[k].live),
        disk.backed_by(files, worlds[k]),
        ({
            let parts = segment::segments(disk.block_size, offset, len, 0);
            let done = if k < parts.len() {
                parts[k].start as int
            } else {
                len
            };
            disk.content(files, worlds[k]) == model::overwritten(
                disk.content(files, worlds.first()),
                offset,
                model::zero_bytes(done),
            )
        }),
    decreases k,
{
    let parts = segment::segments(disk.block_size, offset, len, 0);
    segment::law_segments_partition(disk, offset, len, 0);
    let origin = disk.content(files, worlds.first());
    if k == 0 {
        assert(disk.content(files, worlds[0]) =~= model::overwritten(
            origin,
            offset,
            model::zero_bytes(0),
        ));
    } else {
        lemma_zero_progress(disk, files, offset, len, worlds, k - 1);
        let part = parts[k - 1];
        let before = worlds[k - 1];
        let after = worlds[k];
        assert(part_zeroed(disk, files, parts[k - 1], worlds[k - 1], worlds[k - 1 + 1]));
        let trace = choose|trace: Seq<World>|
            {
                &&& #[trigger] step::runs_plan(
                    step::zero_plan(disk, before.live, part.offset, part.len),
                    files,
                    seq![],
                    trace,
                )
                &&& trace.first() == before
                &&& trace.last() == after
            };
        law_zero_segment(disk, files, part.offset, part.len, seq![], trace);
        let done = part.start + part.len;
        assert(k < parts.len() ==> parts[k].start == done);
        let all = model::zero_bytes(len);
        lemma_overwritten_further(origin, offset, all, part.start as int, part.len as int);
        assert(all.take(part.start as int) =~= model::zero_bytes(part.start as int));
        assert(all.subrange(part.start as int, done) =~= model::zero_bytes(part.len as int));
        assert(all.take(done) =~= model::zero_bytes(done));
    }
}

/// A zeroing that completes turns exactly the bytes it was asked to into zeroes.
pub proof fn law_zero(
    disk: RootfsView,
    files: Committed,
    offset: int,
    len: int,
    worlds: Seq<World>,
)
    requires
        disk.valid(),
        disk.admits(worlds.first().live),
        disk.backed_by(files, worlds.first()),
        0 <= offset,
        0 <= len,
        offset + len <= disk.logical_size,
        zeroes(disk, files, offset, len, worlds),
    ensures
        disk.content(files, worlds.last()) == model::overwritten(
            disk.content(files, worlds.first()),
            offset,
            model::zero_bytes(len),
        ),
        disk.admits(worlds.last().live),
        disk.backed_by(files, worlds.last()),
{
    lemma_zero_progress(disk, files, offset, len, worlds, worlds.len() - 1);
}

/// A zeroing that the host fails in one of its parts keeps the marks disjoint and on the disk. The
/// bytes of the parts before it are zero; those of the parts after it, and those outside the
/// request, are as they were, but for those that are exposed.
pub proof fn law_failed_zero(
    disk: RootfsView,
    files: Committed,
    offset: int,
    len: int,
    worlds: Seq<World>,
    trace: Seq<World>,
)
    requires
        disk.valid(),
        disk.admits(worlds.first().live),
        disk.backed_by(files, worlds.first()),
        0 <= offset,
        0 <= len,
        offset + len <= disk.logical_size,
        0 < worlds.len() <= segment::segments(disk.block_size, offset, len, 0).len(),
        forall|j: int|
            0 <= j < worlds.len() - 1 ==> #[trigger] part_zeroed(
                disk,
                files,
                segment::segments(disk.block_size, offset, len, 0)[j],
                worlds[j],
                worlds[j + 1],
            ),
        trace.first() == worlds.last(),
        ({
            let part = segment::segments(disk.block_size, offset, len, 0)[worlds.len() - 1];
            step::fails_plan(
                step::zero_plan(disk, worlds.last().live, part.offset, part.len),
                files,
                seq![],
                trace,
            )
        }),
    ensures
        disk.admits(trace.last().live),
        disk.backed_by(files, trace.last()),
        ({
            let part = segment::segments(disk.block_size, offset, len, 0)[worlds.len() - 1];
            &&& forall|i: int|
                offset <= i < part.offset ==> #[trigger] disk.byte(files, trace.last(), i) == 0
            &&& forall|i: int|
                0 <= i < disk.logical_size && !(offset <= i < part.offset + part.len) && !exposed(
                    disk,
                    files,
                    part.offset as int,
                    trace,
                    i,
                ) ==> #[trigger] disk.byte(files, trace.last(), i) == disk.byte(
                    files,
                    worlds.first(),
                    i,
                )
        }),
{
    let parts = segment::segments(disk.block_size, offset, len, 0);
    let k = worlds.len() - 1;
    let part = parts[k];
    let bytes: Seq<u8> = seq![];
    segment::law_segments_partition(disk, offset, len, 0);
    lemma_zero_progress(disk, files, offset, len, worlds, k);
    law_failed_segment_keeps_marks(disk, files, part.offset, part.len, bytes, true, trace);
    law_failed_segment(disk, files, part.offset, part.len, bytes, true, trace);
    let before = disk.content(files, worlds[k]);
    assert forall|i: int| offset <= i < part.offset implies #[trigger] disk.byte(
        files,
        trace.last(),
        i,
    ) == 0 by {
        model::lemma_block_bounds(disk, i, disk.block_of(part.offset as int));
        assert(before[i] == disk.byte(files, worlds[k], i));
    }
    assert forall|i: int|
        0 <= i < disk.logical_size && !(offset <= i < part.offset + part.len) && !exposed(
            disk,
            files,
            part.offset as int,
            trace,
            i,
        ) implies #[trigger] disk.byte(files, trace.last(), i) == disk.byte(
        files,
        worlds.first(),
        i,
    ) by {
        assert(before[i] == disk.byte(files, worlds[k], i));
        assert(disk.content(files, worlds.first())[i] == disk.byte(files, worlds.first(), i));
    }
}

/// A read fills its buffer with the content of the disk.
pub proof fn law_read(
    disk: RootfsView,
    files: Committed,
    world: World,
    offset: int,
    buffer: Seq<u8>,
)
    requires
        disk.valid(),
        0 <= offset,
        offset + buffer.len() <= disk.logical_size,
        reads(disk, files, world, offset, buffer),
    ensures
        buffer == disk.content(files, world).subrange(offset, offset + buffer.len()),
{
    let parts = segment::segments(disk.block_size, offset, buffer.len() as int, 0);
    segment::law_segments_partition(disk, offset, buffer.len() as int, 0);
    let content = disk.content(files, world);
    assert forall|i: int| 0 <= i < buffer.len() implies buffer[i] == content[offset + i] by {
        lemma_part_holding(parts, i, parts.len() as int, buffer.len() as int);
        let j = choose|j: int|
            0 <= j < parts.len() && (#[trigger] parts[j]).start <= i < parts[j].start
                + parts[j].len;
        let part = parts[j];
        let bytes = buffer.subrange(part.start as int, part.start + part.len);
        assert(buffer[i] == bytes[i - part.start]);
        step::lemma_segment(disk, part.offset, part.len);
        assert(disk.block_of(offset + i) == disk.block_of(part.offset as int));
    }
    assert(buffer =~= content.subrange(offset, offset + buffer.len()));
}

/// Parts without a gap hold every position between their ends.
proof fn lemma_part_holding(parts: Seq<Segment>, i: int, k: int, end: int)
    requires
        0 < k <= parts.len(),
        parts[0].start == 0,
        parts[k - 1].start + parts[k - 1].len == end,
        forall|h: int, j: int|
            0 <= h < parts.len() && j == h + 1 && j < parts.len() ==> (#[trigger] parts[j]).start
                == (#[trigger] parts[h]).start + parts[h].len,
        0 <= i < end,
    ensures
        exists|j: int|
            0 <= j < parts.len() && (#[trigger] parts[j]).start <= i < parts[j].start
                + parts[j].len,
    decreases k,
{
    if i < parts[k - 1].start {
        assert(k > 1);
        assert(parts[k - 1].start == parts[k - 2].start + parts[k - 2].len);
        lemma_part_holding(parts, i, k - 1, parts[k - 1].start as int);
    }
}

/// After a write a read gives back what was written, and elsewhere what was there before.
pub proof fn law_read_after_write(
    disk: RootfsView,
    files: Committed,
    offset: int,
    data: Seq<u8>,
    worlds: Seq<World>,
    read_offset: int,
    buffer: Seq<u8>,
)
    requires
        disk.valid(),
        disk.admits(worlds.first().live),
        disk.backed_by(files, worlds.first()),
        0 <= offset,
        offset + data.len() <= disk.logical_size,
        writes(disk, files, offset, data, worlds),
        0 <= read_offset,
        read_offset + buffer.len() <= disk.logical_size,
        reads(disk, files, worlds.last(), read_offset, buffer),
    ensures
        buffer == model::overwritten(
            disk.content(files, worlds.first()),
            offset,
            data,
        ).subrange(read_offset, read_offset + buffer.len()),
        read_offset == offset && buffer.len() == data.len() ==> buffer == data,
{
    law_write(disk, files, offset, data, worlds);
    law_read(disk, files, worlds.last(), read_offset, buffer);
    if read_offset == offset && buffer.len() == data.len() {
        assert(buffer =~= data);
    }
}

/// After a zeroing a read gives zeroes there, and elsewhere what was there before.
pub proof fn law_read_after_zero(
    disk: RootfsView,
    files: Committed,
    offset: int,
    len: int,
    worlds: Seq<World>,
    read_offset: int,
    buffer: Seq<u8>,
)
    requires
        disk.valid(),
        disk.admits(worlds.first().live),
        disk.backed_by(files, worlds.first()),
        0 <= offset,
        0 <= len,
        offset + len <= disk.logical_size,
        zeroes(disk, files, offset, len, worlds),
        0 <= read_offset,
        read_offset + buffer.len() <= disk.logical_size,
        reads(disk, files, worlds.last(), read_offset, buffer),
    ensures
        buffer == model::overwritten(
            disk.content(files, worlds.first()),
            offset,
            model::zero_bytes(len),
        ).subrange(read_offset, read_offset + buffer.len()),
        read_offset == offset && buffer.len() == len ==> buffer == model::zero_bytes(len),
{
    law_zero(disk, files, offset, len, worlds);
    law_read(disk, files, worlds.last(), read_offset, buffer);
    if read_offset == offset && buffer.len() == len {
        assert(buffer =~= model::zero_bytes(len));
    }
}

/// No part of a request reads past the end of a file.
pub proof fn law_sources_in_files(
    disk: RootfsView,
    files: Committed,
    world: World,
    offset: int,
    len: int,
)
    requires
        disk.valid(),
        disk.backed_by(files, world),
        disk.in_one_block(offset, len),
    ensures
        model::source_covers(
            files,
            world,
            disk.source(world.live, disk.block_of(offset)),
            offset,
            len,
        ),
        model::source_covers(files, world, disk.committed(disk.block_of(offset)), offset, len),
{
    let block = disk.block_of(offset);
    model::lemma_committed_below(disk.layers, block);
    if let model::ReadSource::Layer(i) = disk.committed(block) {
        let runs = disk.layers[i as int].dirty_runs;
        let r = choose|r: int| 0 <= r < runs.len() && (#[trigger] runs[r]).covers(block);
        let end = disk.layers[i as int].dirty_runs[r].end();
        let size = disk.block_size as int;
        assert(block * size + size <= end * size) by (nonlinear_arith)
            requires
                block + 1 <= end,
                size > 0,
        ;
    }
}

/// Below the live overlay the newest layer that mentions a block decides what it holds.
pub proof fn law_newest_layer_decides(layers: Seq<model::LayerView>, block: u64, i: int)
    requires
        layers.len() <= usize::MAX,
        0 <= i < layers.len(),
        layers[i].zeroes(block) || layers[i].dirties(block),
        forall|j: int|
            i < j < layers.len() ==> !(#[trigger] layers[j]).zeroes(block) && !layers[j].dirties(
                block,
            ),
    ensures
        layers[i].zeroes(block) ==> model::committed_source(layers, block)
            == model::ReadSource::Zeroes,
        !layers[i].zeroes(block) ==> model::committed_source(layers, block)
            == model::ReadSource::Layer(i as usize),
{
    model::lemma_newest_decides(layers, block, i);
}

/// To zero a whole block takes no data: the steps write nothing, none of them can fail, and the
/// block is no longer held by the live file.
pub proof fn law_whole_block_zero_is_free(disk: RootfsView, live: LiveView, block: u64)
    requires
        disk.valid(),
        disk.block_start(block) < disk.logical_size,
    ensures
        ({
            let plan = step::zero_plan(
                disk,
                live,
                disk.block_start(block) as u64,
                disk.block_len(block) as u64,
            );
            &&& forall|k: int| 0 <= k < plan.len() ==> !(#[trigger] plan[k]).can_fail()
            &&& step::marks_after(plan, live) == (LiveView {
                dirty: live.dirty.remove(block),
                zero: live.zero.insert(block),
            })
        }),
{
    let start = disk.block_start(block);
    assert(start >= 0) by (nonlinear_arith)
        requires
            start == block * disk.block_size,
    ;
    model::lemma_block_bounds(disk, start, block);
    let plan = step::zero_plan(disk, live, start as u64, disk.block_len(block) as u64);
    assert(plan.len() == 3);
    assert(plan.drop_last().drop_last().drop_last() =~= seq![]);
    reveal_with_fuel(step::marks_after, 4);
    assert(plan.drop_last().last() == LiveStep::MarkZero { block });
    assert(plan.drop_last().drop_last().last() == LiveStep::UnmarkDirty { block });
}

/// A disk that was made durable and is opened again holds what it held: `index` was saved for
/// the marks of `before`, its reading gave those of `after`, and the live file kept its bytes.
/// This leaves out a disk whose last block ends past the last 64-bit byte position, as long as
/// that block is marked.
pub proof fn law_reopened_content(
    disk: RootfsView,
    files: Committed,
    index: LiveOverlayIndex,
    path: Seq<char>,
    before: World,
    after: World,
)
    requires
        disk.valid(),
        disk.admits(before.live),
        index.records(before.live),
        overlay::index_fits(disk, before.live),
        index.describes(after.live),
        disk.logical_size <= before.file.len(),
        disk.logical_size <= after.file.len(),
        before.file.take(disk.logical_size as int) == after.file.take(disk.logical_size as int),
    ensures
        index.fault(disk.block_size, disk.logical_size, path) is None,
        disk.content(files, after) == disk.content(files, before),
{
    overlay::law_index_round_trip(disk, before.live, index, path, after.live);
    assert forall|i: int| 0 <= i < disk.logical_size implies #[trigger] disk.byte(files, after, i)
        == disk.byte(files, before, i) by {
        assert(before.file.take(disk.logical_size as int)[i] == before.file[i]);
        assert(after.file.take(disk.logical_size as int)[i] == after.file[i]);
        model::lemma_committed_below(disk.layers, disk.block_of(i));
    }
    assert(disk.content(files, after) =~= disk.content(files, before));
}

/// What the steps of a write are, whatever the block held: the block is filled from below exactly
/// when a part of it is kept and it is not marked; it is filled with zeroes exactly when it is
/// marked zero; and the data of the segment is written once, as the last step.
pub proof fn law_write_steps(disk: RootfsView, live: LiveView, offset: u64, len: u64, block: u64)
    requires
        disk.valid(),
        disk.in_one_block(offset as int, len as int),
        block * disk.block_size <= offset < block * disk.block_size + disk.block_size,
    ensures
        ({
            let plan = step::write_plan(disk, live, offset, len);
            let start = block * disk.block_size;
            let end = if start + disk.block_size <= disk.logical_size {
                start + disk.block_size
            } else {
                disk.logical_size as int
            };
            let marked = live.dirty.contains(block) || live.zero.contains(block);
            let copies = |k: int| plan[k] is CopyCommitted;
            let fills = |k: int| plan[k] is WriteZeroes;
            &&& plan.len() > 0
            &&& plan.last() == LiveStep::WriteData { offset, len }
            &&& forall|k: int| 0 <= k < plan.len() - 1 ==> !(#[trigger] plan[k] is WriteData)
            &&& forall|k: int|
                0 <= k < plan.len() ==> !(#[trigger] plan[k] is PunchHole) && !(plan[k] is MarkZero)
                    && !(plan[k] is UnmarkDirty)
            &&& (exists|k: int| 0 <= k < plan.len() && #[trigger] copies(k)) <==> !marked && !(
            offset == start && offset + len == end)
            &&& (exists|k: int| 0 <= k < plan.len() && #[trigger] fills(k))
                <==> live.zero.contains(block)
            &&& forall|k: int|
                0 <= k < plan.len() ==> (#[trigger] plan[k] matches LiveStep::CopyCommitted {
                    source,
                    offset: at,
                    len: count,
                } ==> source == disk.committed(block) && at == start && at + count == end)
            &&& forall|k: int|
                0 <= k < plan.len() ==> (#[trigger] plan[k] matches LiveStep::WriteZeroes {
                    offset: at,
                    len: count,
                } ==> at == start && at + count == end)
        }),
{
    model::law_block_positions(disk, offset as int, block);
    step::lemma_segment(disk, offset, len);
    let plan = step::write_plan(disk, live, offset, len);
    let copies = |k: int| plan[k] is CopyCommitted;
    let fills = |k: int| plan[k] is WriteZeroes;
    let start = block * disk.block_size;
    let whole = offset == start && len == disk.block_len(block);
    if !whole && !live.dirty.contains(block) && !live.zero.contains(block) {
        assert(copies(0));
    }
    if live.zero.contains(block) {
        assert(plan[1] is WriteZeroes);
        assert(fills(1));
    }
    assert(plan.last() == plan[plan.len() - 1]);
}

/// What the steps of a zeroing are: a whole block gets no data and its space is given back in
/// full; of any other block exactly the segment is zeroed, as the last step, after the block was
/// filled from below exactly when it is not marked.
pub proof fn law_zero_steps(disk: RootfsView, live: LiveView, offset: u64, len: u64, block: u64)
    requires
        disk.valid(),
        disk.admits(live),
        disk.in_one_block(offset as int, len as int),
        block * disk.block_size <= offset < block * disk.block_size + disk.block_size,
    ensures
        ({
            let plan = step::zero_plan(disk, live, offset, len);
            let start = block * disk.block_size;
            let end = if start + disk.block_size <= disk.logical_size {
                start + disk.block_size
            } else {
                disk.logical_size as int
            };
            let whole = offset == start && offset + len == end;
            let marked = live.dirty.contains(block) || live.zero.contains(block);
            let copies = |k: int| plan[k] is CopyCommitted;
            &&& plan.len() > 0
            &&& plan.last() == if whole {
                LiveStep::PunchHole { offset, len }
            } else {
                LiveStep::WriteZeroes { offset, len }
            }
            &&& forall|k: int|
                0 <= k < plan.len() - 1 ==> !(#[trigger] plan[k] is PunchHole) && !(
                plan[k] is WriteData)
            &&& (exists|k: int| 0 <= k < plan.len() && #[trigger] copies(k)) <==> !whole && !marked
            &&& forall|k: int|
                0 <= k < plan.len() ==> (#[trigger] plan[k] matches LiveStep::CopyCommitted {
                    source,
                    offset: at,
                    len: count,
                } ==> source == disk.committed(block) && at == start && at + count == end)
            &&& forall|k: int|
                0 <= k < plan.len() - 1 ==> (#[trigger] plan[k] matches LiveStep::WriteZeroes {
                    offset: at,
                    len: count,
                } ==> !whole && live.zero.contains(block) && at == start && at + count == end)
        }),
{
    model::law_block_positions(disk, offset as int, block);
    step::lemma_segment(disk, offset, len);
    let plan = step::zero_plan(disk, live, offset, len);
    let copies = |k: int| plan[k] is CopyCommitted;
    let start = block * disk.block_size;
    let whole = offset == start && len == disk.block_len(block);
    if !whole && !live.dirty.contains(block) && !live.zero.contains(block) {
        assert(copies(0));
    }
    assert(plan.last() == plan[plan.len() - 1]);
}

/// What a write or a zeroing does to the marks: the block is dirty afterwards, or zero where it was
/// zeroed whole, and the marks of all other blocks are as they were.
pub proof fn law_marks_after(
    disk: RootfsView,
    live: LiveView,
    offset: u64,
    len: u64,
    block: u64,
    zeroing: bool,
    other: u64,
)
    requires
        disk.valid(),
        disk.admits(live),
        disk.in_one_block(offset as int, len as int),
        block * disk.block_size <= offset < block * disk.block_size + disk.block_size,
        other != block,
    ensures
        ({
            let after = step::marks_after(segment_plan(disk, live, offset, len, zeroing), live);
            let end = block * disk.block_size + disk.block_size;
            let whole = offset == block * disk.block_size && (offset + len == end || offset + len
                == disk.logical_size);
            &&& after.dirty.contains(block) == !(zeroing && whole)
            &&& after.zero.contains(block) == (zeroing && whole)
            &&& after.dirty.contains(other) == live.dirty.contains(other)
            &&& after.zero.contains(other) == live.zero.contains(other)
        }),
{
    model::law_block_positions(disk, offset as int, block);
    step::lemma_segment(disk, offset, len);
    let plan = segment_plan(disk, live, offset, len, zeroing);
    reveal_with_fuel(step::marks_after, 5);
    let n = plan.len() as int;
    assert(2 <= n <= 4);
    assert(plan.last() == plan[n - 1]);
    let p1 = plan.drop_last();
    assert(p1.last() == plan[n - 2]);
    let p2 = p1.drop_last();
    if n > 2 {
        assert(p2.last() == plan[n - 3]);
        let p3 = p2.drop_last();
        if n > 3 {
            assert(p3.last() == plan[n - 4]);
            assert(p3.drop_last() =~= seq![]);
        } else {
            assert(p3 =~= seq![]);
        }
    } else {
        assert(p2 =~= seq![]);
    }
}

/// A step changes the marks of its own block alone: it sets or clears the mark that it is named
/// after, and a step on the live file changes none.
pub proof fn law_step_marks(step: LiveStep, live: LiveView, block: u64)
    ensures
        ({
            let after = step.marked(live);
            &&& after.dirty.contains(block) == if step == (LiveStep::MarkDirty { block }) {
                true
            } else if step == (LiveStep::UnmarkDirty { block }) {
                false
            } else {
                live.dirty.contains(block)
            }
            &&& after.zero.contains(block) == if step == (LiveStep::MarkZero { block }) {
                true
            } else if step == (LiveStep::UnmarkZero { block }) {
                false
            } else {
                live.zero.contains(block)
            }
        }),
{
}

/// A step on the live file can fail, except that a hole that cannot be punched is let be; a step on
/// the marks cannot.
pub proof fn law_step_can_fail(step: LiveStep)
    ensures
        step.can_fail() <==> !(step is PunchHole) && forall|live: LiveView|
            #[trigger] step.marked(live) == live,
{
    match step {
        LiveStep::MarkDirty { block } | LiveStep::MarkZero { block } => {
            let live = LiveView { dirty: Set::empty(), zero: Set::empty() };
            law_step_marks(step, live, block);
            assert(step.marked(live) != live);
        },
        LiveStep::UnmarkDirty { block } | LiveStep::UnmarkZero { block } => {
            let live = LiveView { dirty: set![block], zero: set![block] };
            law_step_marks(step, live, block);
            assert(live.dirty.contains(block) && live.zero.contains(block));
            assert(step.marked(live) != live);
        },
        _ => {},
    }
}

/// What a step that is carried out does to the live file: the bytes of its range become those of
/// the segment, of its source, or zero, and all others stay. What a hole holds is open.
pub proof fn law_step_effect(
    step: LiveStep,
    files: Committed,
    data: Seq<u8>,
    before: World,
    after: World,
    i: int,
)
    requires
        step.runs(files, data, before, after),
        0 <= i < before.file.len(),
    ensures
        after.file.len() == before.file.len(),
        step matches LiveStep::WriteData { offset, len } ==> after.file[i] == if offset <= i
            < offset + len {
            data[i - offset]
        } else {
            before.file[i]
        },
        step matches LiveStep::WriteZeroes { offset, len } ==> after.file[i] == if offset <= i
            < offset + len {
            0u8
        } else {
            before.file[i]
        },
        step matches LiveStep::CopyCommitted { source, offset, len } ==> after.file[i]
            == if offset <= i < offset + len {
            model::source_byte(files, before, source, i)
        } else {
            before.file[i]
        },
        step matches LiveStep::PunchHole { offset, len } ==> (i < offset || offset + len <= i
            ==> after.file[i] == before.file[i]),
        step is MarkDirty || step is UnmarkDirty || step is MarkZero || step is UnmarkZero
            ==> after.file[i] == before.file[i],
{
}

/// A write that completes: the bytes of its range are the data, the others are as they were.
pub proof fn law_written_byte(
    disk: RootfsView,
    files: Committed,
    offset: int,
    data: Seq<u8>,
    worlds: Seq<World>,
    i: int,
)
    requires
        disk.valid(),
        disk.admits(worlds.first().live),
        disk.backed_by(files, worlds.first()),
        0 <= offset,
        offset + data.len() <= disk.logical_size,
        writes(disk, files, offset, data, worlds),
        0 <= i < disk.logical_size,
    ensures
        disk.content(files, worlds.last())[i] == if offset <= i < offset + data.len() {
            data[i - offset]
        } else {
            disk.content(files, worlds.first())[i]
        },
{
    law_write(disk, files, offset, data, worlds);
}

/// A zeroing that completes: the bytes of its range are zero, the others are as they were.
pub proof fn law_zeroed_byte(
    disk: RootfsView,
    files: Committed,
    offset: int,
    len: int,
    worlds: Seq<World>,
    i: int,
)
    requires
        disk.valid(),
        disk.admits(worlds.first().live),
        disk.backed_by(files, worlds.first()),
        0 <= offset,
        0 <= len,
        offset + len <= disk.logical_size,
        zeroes(disk, files, offset, len, worlds),
        0 <= i < disk.logical_size,
    ensures
        disk.content(files, worlds.last())[i] == if offset <= i < offset + len {
            0u8
        } else {
            disk.content(files, worlds.first())[i]
        },
{
    law_zero(disk, files, offset, len, worlds);
}

} // verus!
